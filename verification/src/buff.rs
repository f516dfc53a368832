//! The framed buffer: a fixed-capacity window over a connection's byte
//! stream, with incremental little-endian reads, sequence checking and
//! record-boundary tracking.
use vstd::bytes::{
    spec_u16_from_le_bytes, spec_u32_from_le_bytes, spec_u64_from_le_bytes, u16_from_le_bytes,
    u32_from_le_bytes, u64_from_le_bytes,
};
use vstd::pervasive::VecAdditionalExecFns;
use vstd::prelude::*;
use vstd::slice::{slice_index_get, slice_subrange};

use crate::er::Er;

verus! {

/// Capacity of the connection buffer in bytes.
pub const BUFF_SIZE: usize = 1024;

/// A fixed-capacity byte buffer holding the unread tail of a connection's
/// stream and a cursor for the record being decoded.
///
/// `rec_size` is the declared size of the whole current frame (header bytes
/// included), read from the frame's leading `u32`; `rec_upto` counts how many
/// bytes of the current frame have been consumed or surfaced so far.
pub struct Buff {
    /// Size of the current frame, or `None` while the size field is unread.
    pub rec_size: Option<u32>,
    /// The backing storage; always `BUFF_SIZE` bytes long.
    pub buffer: Vec<u8>,
    /// End of the valid bytes in `buffer` (bytes received, not yet rewound).
    pub buff_pos: u32,
    /// Position of the next unprocessed byte in `buffer`.
    pub rec_pos: u32,
    /// Bytes of the current frame consumed or surfaced so far.
    pub rec_upto: u32,
    /// The sequence value the current frame's sequence byte must carry.
    pub seq: u8,
    /// Whether the current frame's sequence byte has been checked.
    pub seq_checked: bool,
}

impl Buff {
    /// Structural validity: the cursors stay inside the backing storage and
    /// consumption never passes the declared frame size.
    pub open spec fn wf(self) -> bool {
        &&& self.buffer@.len() == BUFF_SIZE
        &&& self.rec_pos <= self.buff_pos <= BUFF_SIZE
        &&& (self.rec_size matches Some(s) ==> self.rec_upto <= s)
    }

    /// One past the last byte the current frame may read from the buffer:
    /// the end of valid data, capped at the end of the frame.
    pub open spec fn read_to_spec(self) -> int
        recommends
            self.wf(),
            self.rec_size is Some,
    {
        let frame_end = self.rec_pos + (self.rec_size->Some_0 - self.rec_upto);
        if self.buff_pos <= frame_end {
            self.buff_pos as int
        } else {
            frame_end
        }
    }

    /// How many bytes of the current frame are visible and unconsumed.
    pub open spec fn visible_len(self) -> int
        recommends
            self.wf(),
            self.rec_size is Some,
    {
        self.read_to_spec() - self.rec_pos
    }

    /// The visible, unconsumed bytes of the current frame.
    pub open spec fn visible_seq(self) -> Seq<u8>
        recommends
            self.wf(),
            self.rec_size is Some,
    {
        self.buffer@.subrange(self.rec_pos as int, self.read_to_spec())
    }

    /// Bytes of the current frame at hand: already consumed plus buffered.
    /// Reads advance both cursors together, so this does not change until
    /// more bytes arrive or `reset` finishes the frame.
    pub open spec fn frame_avail(self) -> int {
        self.rec_upto + (self.buff_pos - self.rec_pos)
    }

    /// The current frame's byte at offset `k` from the frame's start, while
    /// it is still in the window.
    pub open spec fn frame_byte(self, k: int) -> u8
        recommends
            self.rec_upto <= k < self.frame_avail(),
    {
        self.buffer@[self.rec_pos + (k - self.rec_upto)]
    }

    /// The current frame's bytes at offsets `[a, b)` from the frame's start,
    /// while they are still in the window.
    pub open spec fn frame_bytes_at(self, a: int, b: int) -> Seq<u8>
        recommends
            self.rec_upto <= a <= b <= self.frame_avail(),
    {
        self.buffer@.subrange(self.rec_pos + (a - self.rec_upto), self.rec_pos + (b - self.rec_upto))
    }

    /// The current frame's declared size, as soon as it can be known: the
    /// recorded one, or the little-endian `u32` at the window's start while
    /// the size field is still unread.
    pub open spec fn frame_size_known(self) -> Option<u32> {
        match self.rec_size {
            Some(s) => Some(s),
            None => if self.buff_pos - self.rec_pos >= 4 {
                Some(
                    spec_u32_from_le_bytes(
                        self.buffer@.subrange(self.rec_pos as int, self.rec_pos + 4),
                    ),
                )
            } else {
                None
            },
        }
    }

    /// Whether every byte of the current frame has been consumed or surfaced.
    pub open spec fn is_end_spec(self) -> bool {
        match self.rec_size {
            Some(s) => self.rec_upto + self.visible_len() == s,
            None => false,
        }
    }

    /// An empty buffer expecting sequence 0, with no frame in progress.
    pub fn new() -> (b: Buff)
        ensures
            b.wf(),
            b.rec_size is None,
            b.buff_pos == 0,
            b.rec_pos == 0,
            b.rec_upto == 0,
            b.seq == 0,
            !b.seq_checked,
            b.buffer@ == Seq::new(BUFF_SIZE as nat, |i: int| 0u8),
    {
        let buffer: Vec<u8> = vec![0u8; BUFF_SIZE];
        proof {
            assert(buffer@ =~= Seq::new(BUFF_SIZE as nat, |i: int| 0u8));
        }
        Buff {
            rec_size: None,
            buffer,
            buff_pos: 0,
            rec_pos: 0,
            rec_upto: 0,
            seq: 0,
            seq_checked: false,
        }
    }

    /// Whether at least `n` unprocessed bytes are in the buffer.
    fn has_n_bytes(&self, n: usize) -> (r: bool)
        requires
            self.wf(),
            n <= BUFF_SIZE,
        ensures
            r == (self.rec_pos + n <= self.buff_pos),
    {
        self.buff_pos >= self.rec_pos + n as u32
    }

    /// Reads the next byte if one is available, advancing both cursors.
    pub fn read_u8(&mut self) -> (r: Option<u8>)
        requires
            old(self).wf(),
            old(self).rec_size matches Some(s) ==> old(self).rec_upto + 1 <= s,
            old(self).rec_size is None ==> old(self).rec_upto + 1 <= u32::MAX,
        ensures
            final(self).wf(),
            r is Some <==> old(self).rec_pos + 1 <= old(self).buff_pos,
            r matches Some(v) ==> v == old(self).buffer@[old(self).rec_pos as int],
            r is Some ==> *final(self) == (Buff {
                rec_pos: (old(self).rec_pos + 1) as u32,
                rec_upto: (old(self).rec_upto + 1) as u32,
                ..*old(self)
            }),
            r is None ==> *final(self) == *old(self),
    {
        if self.has_n_bytes(1) {
            let result = *slice_index_get(self.buffer.as_slice(), self.rec_pos as usize);
            self.rec_pos = self.rec_pos + 1;
            self.rec_upto = self.rec_upto + 1;
            Some(result)
        } else {
            None
        }
    }

    /// Looks at the next four bytes as a little-endian `u32`, if available,
    /// without consuming anything.
    pub fn peek_u32(&self) -> (r: Option<u32>)
        requires
            self.wf(),
        ensures
            r is Some <==> self.rec_pos + 4 <= self.buff_pos,
            r matches Some(v) ==> v == spec_u32_from_le_bytes(
                self.buffer@.subrange(self.rec_pos as int, self.rec_pos + 4),
            ),
    {
        if self.has_n_bytes(4) {
            let start = self.rec_pos as usize;
            let bytes = slice_subrange(self.buffer.as_slice(), start, start + 4);
            Some(u32_from_le_bytes(bytes))
        } else {
            None
        }
    }

    /// Reads the next two bytes as a little-endian `u16` if available.
    pub fn read_u16(&mut self) -> (r: Option<u16>)
        requires
            old(self).wf(),
            old(self).rec_size matches Some(s) ==> old(self).rec_upto + 2 <= s,
            old(self).rec_size is None ==> old(self).rec_upto + 2 <= u32::MAX,
        ensures
            final(self).wf(),
            r is Some <==> old(self).rec_pos + 2 <= old(self).buff_pos,
            r matches Some(v) ==> v == spec_u16_from_le_bytes(
                old(self).buffer@.subrange(old(self).rec_pos as int, old(self).rec_pos + 2),
            ),
            r is Some ==> *final(self) == (Buff {
                rec_pos: (old(self).rec_pos + 2) as u32,
                rec_upto: (old(self).rec_upto + 2) as u32,
                ..*old(self)
            }),
            r is None ==> *final(self) == *old(self),
    {
        if self.has_n_bytes(2) {
            let start = self.rec_pos as usize;
            let bytes = slice_subrange(self.buffer.as_slice(), start, start + 2);
            let result = u16_from_le_bytes(bytes);
            self.rec_pos = self.rec_pos + 2;
            self.rec_upto = self.rec_upto + 2;
            Some(result)
        } else {
            None
        }
    }

    /// Reads the next four bytes as a little-endian `u32` if available.
    pub fn read_u32(&mut self) -> (r: Option<u32>)
        requires
            old(self).wf(),
            old(self).rec_size matches Some(s) ==> old(self).rec_upto + 4 <= s,
            old(self).rec_size is None ==> old(self).rec_upto + 4 <= u32::MAX,
        ensures
            final(self).wf(),
            r is Some <==> old(self).rec_pos + 4 <= old(self).buff_pos,
            r matches Some(v) ==> v == spec_u32_from_le_bytes(
                old(self).buffer@.subrange(old(self).rec_pos as int, old(self).rec_pos + 4),
            ),
            r is Some ==> *final(self) == (Buff {
                rec_pos: (old(self).rec_pos + 4) as u32,
                rec_upto: (old(self).rec_upto + 4) as u32,
                ..*old(self)
            }),
            r is None ==> *final(self) == *old(self),
    {
        if self.has_n_bytes(4) {
            let start = self.rec_pos as usize;
            let bytes = slice_subrange(self.buffer.as_slice(), start, start + 4);
            let result = u32_from_le_bytes(bytes);
            self.rec_pos = self.rec_pos + 4;
            self.rec_upto = self.rec_upto + 4;
            Some(result)
        } else {
            None
        }
    }

    /// Reads the next eight bytes as a little-endian `u64` if available.
    pub fn read_u64(&mut self) -> (r: Option<u64>)
        requires
            old(self).wf(),
            old(self).rec_size matches Some(s) ==> old(self).rec_upto + 8 <= s,
            old(self).rec_size is None ==> old(self).rec_upto + 8 <= u32::MAX,
        ensures
            final(self).wf(),
            r is Some <==> old(self).rec_pos + 8 <= old(self).buff_pos,
            r matches Some(v) ==> v == spec_u64_from_le_bytes(
                old(self).buffer@.subrange(old(self).rec_pos as int, old(self).rec_pos + 8),
            ),
            r is Some ==> *final(self) == (Buff {
                rec_pos: (old(self).rec_pos + 8) as u32,
                rec_upto: (old(self).rec_upto + 8) as u32,
                ..*old(self)
            }),
            r is None ==> *final(self) == *old(self),
    {
        if self.has_n_bytes(8) {
            let start = self.rec_pos as usize;
            let bytes = slice_subrange(self.buffer.as_slice(), start, start + 8);
            let result = u64_from_le_bytes(bytes);
            self.rec_pos = self.rec_pos + 8;
            self.rec_upto = self.rec_upto + 8;
            Some(result)
        } else {
            None
        }
    }

    /// Copies bytes from `input` into the free tail of the buffer, taking as
    /// many as fit, and reports how many were taken.  The stream read itself
    /// happens outside; this function only accepts its bytes.
    pub fn read_data(&mut self, input: &[u8]) -> (r: Result<usize, Er>)
        requires
            old(self).wf(),
        ensures
            final(self).wf(),
            r matches Ok(n) && n == if input@.len() <= BUFF_SIZE - old(self).buff_pos {
                input@.len() as int
            } else {
                BUFF_SIZE - old(self).buff_pos
            },
            final(self).buff_pos == old(self).buff_pos + r->Ok_0,
            forall|j: int|
                0 <= j < old(self).buff_pos ==> final(self).buffer@[j] == old(self).buffer@[j],
            forall|j: int|
                0 <= j < r->Ok_0 ==> final(self).buffer@[old(self).buff_pos + j] == input@[j],
            forall|j: int|
                old(self).buff_pos + r->Ok_0 <= j < BUFF_SIZE ==> final(self).buffer@[j] == old(
                    self,
                ).buffer@[j],
            final(self).rec_size == old(self).rec_size,
            final(self).rec_pos == old(self).rec_pos,
            final(self).rec_upto == old(self).rec_upto,
            final(self).seq == old(self).seq,
            final(self).seq_checked == old(self).seq_checked,
    {
        let free: usize = BUFF_SIZE - self.buff_pos as usize;
        let n: usize = if input.len() <= free {
            input.len()
        } else {
            free
        };
        let base: usize = self.buff_pos as usize;
        let mut i: usize = 0;
        while i < n
            invariant
                i <= n,
                n <= input@.len(),
                base == old(self).buff_pos,
                base + n <= BUFF_SIZE,
                self.buffer@.len() == BUFF_SIZE,
                forall|j: int| 0 <= j < base ==> self.buffer@[j] == old(self).buffer@[j],
                forall|j: int| 0 <= j < i ==> self.buffer@[base + j] == input@[j],
                forall|j: int|
                    base + i <= j < BUFF_SIZE ==> self.buffer@[j] == old(self).buffer@[j],
                self.rec_size == old(self).rec_size,
                self.rec_pos == old(self).rec_pos,
                self.rec_upto == old(self).rec_upto,
                self.buff_pos == old(self).buff_pos,
                self.seq == old(self).seq,
                self.seq_checked == old(self).seq_checked,
            decreases n - i,
        {
            let b = *slice_index_get(input, i);
            self.buffer.set(base + i, b);
            i = i + 1;
        }
        self.buff_pos = self.buff_pos + n as u32;
        Ok(n)
    }

    /// Checks the current frame's sequence byte once: reads one byte when not
    /// yet validated and fails with `InvalidSequence` when it is not the
    /// expected value.  With fewer than one byte available, reports success
    /// and leaves validation for a later call.
    pub fn check_seq(&mut self) -> (r: Result<(), Er>)
        requires
            old(self).wf(),
            !old(self).seq_checked && old(self).rec_size is Some ==> old(self).rec_upto + 1 <= old(
                self,
            ).rec_size->Some_0,
            !old(self).seq_checked && old(self).rec_size is None ==> old(self).rec_upto + 1
                <= u32::MAX,
        ensures
            final(self).wf(),
            old(self).seq_checked ==> r is Ok && *final(self) == *old(self),
            !old(self).seq_checked && old(self).rec_pos >= old(self).buff_pos ==> r is Ok
                && *final(self) == *old(self),
            !old(self).seq_checked && old(self).rec_pos < old(self).buff_pos ==> {
                let b = old(self).buffer@[old(self).rec_pos as int];
                &&& (r is Ok <==> b == old(self).seq)
                &&& (r is Err ==> r->Err_0 == Er::InvalidSequence)
                &&& *final(self) == (Buff {
                    rec_pos: (old(self).rec_pos + 1) as u32,
                    rec_upto: (old(self).rec_upto + 1) as u32,
                    seq_checked: b == old(self).seq,
                    ..*old(self)
                })
            },
    {
        if !self.seq_checked {
            if let Some(s) = self.read_u8() {
                if s == self.seq {
                    self.seq_checked = true;
                    Ok(())
                } else {
                    Err(Er::InvalidSequence)
                }
            } else {
                Ok(())
            }
        } else {
            Ok(())
        }
    }

    /// Whether any byte of the current frame is visible and unconsumed.
    pub fn has_data(&self) -> (r: bool)
        requires
            self.wf(),
            self.rec_size is Some,
        ensures
            r == (self.visible_len() > 0),
    {
        self.read_to() as u32 - self.rec_pos > 0
    }

    /// Whether every byte of the current frame has been consumed or surfaced;
    /// false while no frame size has been read.
    pub fn is_end_of_record(&self) -> (r: bool)
        requires
            self.wf(),
        ensures
            r == self.is_end_spec(),
    {
        if let Some(rec_size) = self.rec_size {
            let size = self.read_to() as u32 - self.rec_pos;
            self.rec_upto + size == rec_size
        } else {
            false
        }
    }

    /// The visible, unconsumed bytes of the current frame.
    pub fn data(&self) -> (r: &[u8])
        requires
            self.wf(),
            self.rec_size is Some,
        ensures
            r@ == self.visible_seq(),
    {
        slice_subrange(self.buffer.as_slice(), self.rec_pos as usize, self.read_to())
    }

    /// One past the last byte the current frame may read from the buffer.
    fn read_to(&self) -> (r: usize)
        requires
            self.wf(),
            self.rec_size is Some,
        ensures
            r == self.read_to_spec(),
    {
        let rec_size = match self.rec_size {
            Some(s) => s,
            None => 0,
        };
        let buff_toread = self.buff_pos - self.rec_pos;
        let rec_toread = rec_size - self.rec_upto;
        if buff_toread <= rec_toread {
            self.buff_pos as usize
        } else {
            (self.rec_pos + rec_toread) as usize
        }
    }

    /// The state `reset` leaves behind: the visible bytes are consumed, the
    /// window rewinds when fully drained, and a completed frame clears the
    /// frame state and advances the expected sequence (wrapping at 255).
    pub open spec fn after_reset(self) -> Buff
        recommends
            self.wf(),
            self.rec_size is Some,
    {
        let v = self.visible_len();
        let rp = (self.rec_pos + v) as u32;
        let ru = (self.rec_upto + v) as u32;
        let rewound = self.buff_pos == rp;
        let bp2 = if rewound {
            0u32
        } else {
            self.buff_pos
        };
        let rp2 = if rewound {
            0u32
        } else {
            rp
        };
        let complete = ru == self.rec_size->Some_0;
        Buff {
            rec_size: if complete {
                None
            } else {
                self.rec_size
            },
            buffer: self.buffer,
            buff_pos: bp2,
            rec_pos: rp2,
            rec_upto: if complete {
                0u32
            } else {
                ru
            },
            seq: if complete {
                if self.seq == 255 {
                    0u8
                } else {
                    (self.seq + 1) as u8
                }
            } else {
                self.seq
            },
            seq_checked: if complete {
                false
            } else {
                self.seq_checked
            },
        }
    }

    /// Consumes the visible bytes of the current frame, rewinds the window
    /// when it is fully drained, and on frame completion clears the frame
    /// state and advances the expected sequence.
    pub fn reset(&mut self)
        requires
            old(self).wf(),
            old(self).rec_size is Some,
        ensures
            final(self).wf(),
            *final(self) == old(self).after_reset(),
    {
        let size = self.read_to() as u32 - self.rec_pos;
        self.rec_pos = self.rec_pos + size;
        self.rec_upto = self.rec_upto + size;

        if self.buff_pos == self.rec_pos {
            self.buff_pos = 0;
            self.rec_pos = 0;
        }

        if self.is_end_of_record() {
            self.rec_upto = 0;
            self.rec_size = None;
            self.seq = if self.seq == 255 {
                0
            } else {
                self.seq + 1
            };
            self.seq_checked = false;
        }
    }
}

} // verus!
