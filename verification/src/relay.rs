//! The relay engine's data path, one direction at a time: every chunk read
//! from the source is delivered to the sink unchanged, in order, exactly
//! once, and the byte counters report what was carried.

use vstd::prelude::*;

verus! {

/// The concatenation of a list of chunks.
pub open spec fn spec_concat_chunks(chunks: Seq<Seq<u8>>) -> Seq<u8>
    decreases chunks.len(),
{
    if chunks.len() == 0 {
        Seq::<u8>::empty()
    } else {
        spec_concat_chunks(chunks.drop_last()) + chunks.last()
    }
}

/// One direction of a relay: what has been read from the source so far, and
/// the running byte count reported at completion.
pub struct RelayDirection {
    pub delivered: Ghost<Seq<u8>>,
    pub bytes: u64,
}

impl RelayDirection {
    /// The byte counter matches the delivered stream.
    pub open spec fn wf(self) -> bool {
        self.bytes == self.delivered@.len()
    }

    pub fn new() -> (r: Self)
        ensures
            r.wf(),
            r.delivered@ == Seq::<u8>::empty(),
            r.bytes == 0,
    {
        RelayDirection { delivered: Ghost(Seq::empty()), bytes: 0 }
    }

    /// Carries one chunk across: the delivered stream is extended by exactly
    /// the chunk that was read, nothing reordered, nothing duplicated.
    pub fn carry(&mut self, chunk: &Vec<u8>) -> (out: Vec<u8>)
        requires
            old(self).wf(),
            old(self).bytes + chunk@.len() <= u64::MAX,
        ensures
            final(self).wf(),
            final(self).delivered@ == old(self).delivered@ + chunk@,
            final(self).bytes == old(self).bytes + chunk@.len(),
            out@ == chunk@,
    {
        let mut out: Vec<u8> = Vec::new();
        let n = chunk.len();
        for i in 0..n
            invariant
                n == chunk@.len(),
                out@ =~= chunk@.take(i as int),
        {
            out.push(chunk[i]);
            proof {
                assert(out@ =~= chunk@.take(i + 1));
            }
        }
        proof {
            assert(chunk@.take(n as int) =~= chunk@);
        }
        self.bytes = self.bytes + out.len() as u64;
        proof {
            self.delivered@ = self.delivered@ + chunk@;
        }
        out
    }
}

/// Pumps a whole stream of chunks through one direction: the bytes that come
/// out are exactly the bytes that were read, in order, and the reported
/// count is their number.
pub fn relay_pump(chunks: &Vec<Vec<u8>>) -> (r: (Vec<u8>, u64))
    requires
        spec_concat_chunks(chunks@.map_values(|c: Vec<u8>| c@)).len() <= u64::MAX,
    ensures
        r.0@ == spec_concat_chunks(chunks@.map_values(|c: Vec<u8>| c@)),
        r.1 == r.0@.len(),
{
    let ghost all = chunks@.map_values(|c: Vec<u8>| c@);
    let mut direction = RelayDirection::new();
    let mut out: Vec<u8> = Vec::new();
    let n = chunks.len();
    for i in 0..n
        invariant
            n == chunks@.len(),
            all == chunks@.map_values(|c: Vec<u8>| c@),
            spec_concat_chunks(all).len() <= u64::MAX,
            direction.wf(),
            direction.delivered@ == spec_concat_chunks(all.take(i as int)),
            out@ == direction.delivered@,
    {
        proof {
            assert(all.take(i + 1).drop_last() =~= all.take(i as int));
            assert(all.take(i + 1).last() == all[i as int]);
            assert(all[i as int] == chunks@[i as int]@);
            lemma_concat_prefix_len(all, i + 1);
        }
        let mut piece = direction.carry(&chunks[i]);
        let m = piece.len();
        let ghost before = out@;
        for j in 0..m
            invariant
                m == piece@.len(),
                out@ == before + piece@.take(j as int),
        {
            out.push(piece[j]);
            proof {
                assert(before + piece@.take(j + 1) =~= (before + piece@.take(j as int)).push(
                    piece@[j as int],
                ));
            }
        }
        proof {
            assert(before + piece@.take(m as int) =~= before + piece@);
        }
    }
    proof {
        assert(all.take(n as int) =~= all);
    }
    let bytes = direction.bytes;
    (out, bytes)
}

/// A prefix of the chunk list never concatenates to more than the whole.
proof fn lemma_concat_prefix_len(chunks: Seq<Seq<u8>>, i: int)
    requires
        0 <= i <= chunks.len(),
    ensures
        spec_concat_chunks(chunks.take(i)) .len() <= spec_concat_chunks(chunks).len(),
    decreases chunks.len() - i,
{
    if i < chunks.len() {
        assert(chunks.take(i + 1).drop_last() =~= chunks.take(i));
        lemma_concat_prefix_len(chunks, i + 1);
    } else {
        assert(chunks.take(i) =~= chunks);
    }
}

} // verus!
