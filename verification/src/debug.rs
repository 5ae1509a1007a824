//! The debug control plane's data: the messages a client can send the
//! driver loop, the snapshots the machine publishes in reply, and the
//! fixed-layout binary record a CPU snapshot travels in.

use vstd::prelude::*;

verus! {

/// Number of bytes in an encoded CPU snapshot record: 16 registers, the
/// address register and program counter (two bytes each, big-endian), the
/// stack pointer, and 16 stack slots (two bytes each, big-endian).
pub const SNAPSHOT_BYTES: usize = 53;

/// A control message for the driver loop, one per accepted command.
#[derive(Clone, Copy, Debug, PartialEq, Eq, Structural)]
#[allow(non_camel_case_types)]
pub enum DbgMessage {
    /// Request a CPU snapshot.
    CPU,
    /// Enter the Running state.
    START,
    /// Enter the Stopped state.
    STOP,
    /// Execute exactly one cycle, whatever the run state.
    STEP,
    /// Accepted and ignored: the specified state machine has no restart
    /// transition.
    RESTART,
    /// Request a copy of the given number of bytes from the given address.
    MEM(u16, usize),
}

/// A copy of the engine's architectural state, decoupled from the live
/// machine.
pub struct CpuSnapshot {
    /// The 16 general-purpose registers.
    pub v: Vec<u8>,
    /// The address register.
    pub i: u16,
    /// The program counter.
    pub pc: u16,
    /// The stack pointer.
    pub sp: u8,
    /// The 16 return-address slots.
    pub stack: Vec<u16>,
}

/// A reply published by the machine for a data-bearing command.
#[allow(non_camel_case_types)]
pub enum Chip8Snapshots {
    /// The engine state.
    CPU(CpuSnapshot),
    /// A raw byte dump.
    MEM(Vec<u8>),
}

/// The high byte of a 16-bit word.
pub open spec fn hi(w: u16) -> u8 {
    (w / 256) as u8
}

/// The low byte of a 16-bit word.
pub open spec fn lo(w: u16) -> u8 {
    (w % 256) as u8
}

/// The fixed-layout record for the given snapshot contents: registers,
/// then `I`, `PC` (big-endian), `SP`, then the stack slots (big-endian).
pub open spec fn encode_spec(v: Seq<u8>, i: u16, pc: u16, sp: u8, stack: Seq<u16>) -> Seq<u8> {
    v + seq![hi(i), lo(i), hi(pc), lo(pc), sp] + Seq::new(
        32,
        |k: int| if k % 2 == 0 {
            hi(stack[k / 2])
        } else {
            lo(stack[k / 2])
        },
    )
}

impl CpuSnapshot {
    /// A well-formed snapshot has all 16 registers and stack slots.
    pub open spec fn wf(&self) -> bool {
        self.v@.len() == 16 && self.stack@.len() == 16
    }

    /// Serializes the snapshot as its fixed-layout binary record.
    pub fn encode(&self) -> (r: Vec<u8>)
        requires
            self.wf(),
        ensures
            r@.len() == SNAPSHOT_BYTES,
            r@ == encode_spec(self.v@, self.i, self.pc, self.sp, self.stack@),
    {
        let mut out: Vec<u8> = Vec::new();
        let mut k: usize = 0;
        while k < 16
            invariant
                k <= 16,
                self.wf(),
                out@.len() == k,
                forall|j: int| 0 <= j < k ==> out@[j] == self.v@[j],
            decreases 16 - k,
        {
            out.push(self.v[k]);
            k += 1;
        }
        out.push((self.i / 256) as u8);
        out.push((self.i % 256) as u8);
        out.push((self.pc / 256) as u8);
        out.push((self.pc % 256) as u8);
        out.push(self.sp);
        let mut k: usize = 0;
        while k < 16
            invariant
                k <= 16,
                self.wf(),
                out@.len() == 21 + 2 * k,
                forall|j: int| 0 <= j < 16 ==> out@[j] == self.v@[j],
                out@[16] == hi(self.i),
                out@[17] == lo(self.i),
                out@[18] == hi(self.pc),
                out@[19] == lo(self.pc),
                out@[20] == self.sp,
                forall|j: int|
                    0 <= j < k ==> out@[21 + 2 * j] == hi(#[trigger] self.stack@[j]) && out@[22 + 2
                        * j] == lo(self.stack@[j]),
            decreases 16 - k,
        {
            let w = self.stack[k];
            out.push((w / 256) as u8);
            out.push((w % 256) as u8);
            k += 1;
        }
        proof {
            assert(out@ =~= encode_spec(self.v@, self.i, self.pc, self.sp, self.stack@));
        }
        out
    }

    /// Parses a fixed-layout binary record back into a snapshot. Exactly
    /// the byte strings of the record's length parse; every field of the
    /// result is read back from its place in the record.
    pub fn decode(bytes: &Vec<u8>) -> (r: Option<CpuSnapshot>)
        ensures
            r is Some <==> bytes@.len() == SNAPSHOT_BYTES,
            r matches Some(s) ==> {
                &&& s.wf()
                &&& s.v@ == bytes@.subrange(0, 16)
                &&& s.i == bytes@[16] * 256 + bytes@[17]
                &&& s.pc == bytes@[18] * 256 + bytes@[19]
                &&& s.sp == bytes@[20]
                &&& forall|j: int|
                    0 <= j < 16 ==> #[trigger] s.stack@[j] == bytes@[21 + 2 * j] * 256 + bytes@[22
                        + 2 * j]
            },
    {
        if bytes.len() != SNAPSHOT_BYTES {
            return None;
        }
        let mut v: Vec<u8> = Vec::new();
        let mut k: usize = 0;
        while k < 16
            invariant
                k <= 16,
                bytes@.len() == SNAPSHOT_BYTES,
                v@.len() == k,
                forall|j: int| 0 <= j < k ==> v@[j] == bytes@[j],
            decreases 16 - k,
        {
            v.push(bytes[k]);
            k += 1;
        }
        proof {
            assert(v@ =~= bytes@.subrange(0, 16));
        }
        let i = bytes[16] as u16 * 256 + bytes[17] as u16;
        let pc = bytes[18] as u16 * 256 + bytes[19] as u16;
        let sp = bytes[20];
        let mut stack: Vec<u16> = Vec::new();
        let mut k: usize = 0;
        while k < 16
            invariant
                k <= 16,
                bytes@.len() == SNAPSHOT_BYTES,
                stack@.len() == k,
                forall|j: int|
                    0 <= j < k ==> #[trigger] stack@[j] == bytes@[21 + 2 * j] * 256 + bytes@[22 + 2
                        * j],
            decreases 16 - k,
        {
            stack.push(bytes[21 + 2 * k] as u16 * 256 + bytes[22 + 2 * k] as u16);
            k += 1;
        }
        Some(CpuSnapshot { v, i, pc, sp, stack })
    }
}

/// Every field of a snapshot is read back from its place in the record:
/// encoding then decoding loses nothing.
pub proof fn lemma_record_recovers_fields(v: Seq<u8>, i: u16, pc: u16, sp: u8, stack: Seq<u16>)
    requires
        v.len() == 16,
        stack.len() == 16,
    ensures
        ({
            let e = encode_spec(v, i, pc, sp, stack);
            &&& e.len() == SNAPSHOT_BYTES
            &&& e.subrange(0, 16) == v
            &&& e[16] * 256 + e[17] == i
            &&& e[18] * 256 + e[19] == pc
            &&& e[20] == sp
            &&& forall|j: int| 0 <= j < 16 ==> e[21 + 2 * j] * 256 + e[22 + 2 * j] == #[trigger] stack[j]
        }),
{
    let e = encode_spec(v, i, pc, sp, stack);
    assert(e.subrange(0, 16) =~= v);
    assert(e[16] == hi(i) && e[17] == lo(i));
    assert(e[18] == hi(pc) && e[19] == lo(pc));
    assert forall|j: int| 0 <= j < 16 implies e[21 + 2 * j] * 256 + e[22 + 2 * j] == #[trigger] stack[j] by {
        assert(e[21 + 2 * j] == hi(stack[j]) && e[22 + 2 * j] == lo(stack[j]));
    }
}

/// The snapshot record determines its contents: two well-formed snapshots
/// with the same encoding agree on every field.
pub proof fn lemma_encode_injective(
    v1: Seq<u8>,
    i1: u16,
    pc1: u16,
    sp1: u8,
    st1: Seq<u16>,
    v2: Seq<u8>,
    i2: u16,
    pc2: u16,
    sp2: u8,
    st2: Seq<u16>,
)
    requires
        v1.len() == 16,
        st1.len() == 16,
        v2.len() == 16,
        st2.len() == 16,
        encode_spec(v1, i1, pc1, sp1, st1) == encode_spec(v2, i2, pc2, sp2, st2),
    ensures
        v1 == v2,
        i1 == i2,
        pc1 == pc2,
        sp1 == sp2,
        st1 == st2,
{
    let e1 = encode_spec(v1, i1, pc1, sp1, st1);
    let e2 = encode_spec(v2, i2, pc2, sp2, st2);
    assert forall|j: int| 0 <= j < 16 implies v1[j] == v2[j] by {
        assert(e1[j] == v1[j]);
        assert(e2[j] == v2[j]);
    }
    assert(v1 =~= v2);
    assert(e1[16] == hi(i1) && e1[17] == lo(i1));
    assert(e2[16] == hi(i2) && e2[17] == lo(i2));
    assert(i1 == hi(i1) * 256 + lo(i1));
    assert(i2 == hi(i2) * 256 + lo(i2));
    assert(e1[18] == hi(pc1) && e1[19] == lo(pc1));
    assert(e2[18] == hi(pc2) && e2[19] == lo(pc2));
    assert(pc1 == hi(pc1) * 256 + lo(pc1));
    assert(pc2 == hi(pc2) * 256 + lo(pc2));
    assert(e1[20] == sp1 && e2[20] == sp2);
    assert forall|j: int| 0 <= j < 16 implies st1[j] == st2[j] by {
        assert(e1[21 + 2 * j] == hi(st1[j]) && e1[22 + 2 * j] == lo(st1[j]));
        assert(e2[21 + 2 * j] == hi(st2[j]) && e2[22 + 2 * j] == lo(st2[j]));
        assert(st1[j] == hi(st1[j]) * 256 + lo(st1[j]));
        assert(st2[j] == hi(st2[j]) * 256 + lo(st2[j]));
    }
    assert(st1 =~= st2);
}

} // verus!
