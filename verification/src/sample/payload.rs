//! Decoding of the sample record payload and of read-format values.
//!
//! Which fields a sample record carries is fixed by the sampling
//! configuration negotiated when the originating counter was opened,
//! not by the record itself; the decoder therefore carries that
//! configuration as context. Fields are laid out in a fixed order, and
//! every variable-length field is prefixed by a count that the decoder
//! checks against the record's remaining bytes before consuming
//! anything.

use vstd::prelude::*;

use crate::error::DecodeError;
use crate::sample::wire::le_u32;
use crate::sample::wire::le_u64;
use crate::sample::wire::le_u64_seq;
use crate::sample::wire::popcount64;
use crate::sample::wire::read_u32;
use crate::sample::wire::read_u64;
use crate::sample::wire::spec_popcount;
use crate::sample::wire::subvec;

verus! {

pub const SAMPLE_IP: u64 = 0x1;

pub const SAMPLE_TID: u64 = 0x2;

pub const SAMPLE_TIME: u64 = 0x4;

pub const SAMPLE_ADDR: u64 = 0x8;

pub const SAMPLE_READ: u64 = 0x10;

pub const SAMPLE_CALLCHAIN: u64 = 0x20;

pub const SAMPLE_ID: u64 = 0x40;

pub const SAMPLE_CPU: u64 = 0x80;

pub const SAMPLE_PERIOD: u64 = 0x100;

pub const SAMPLE_STREAM_ID: u64 = 0x200;

pub const SAMPLE_RAW: u64 = 0x400;

pub const SAMPLE_BRANCH_STACK: u64 = 0x800;

pub const SAMPLE_REGS_USER: u64 = 0x1000;

pub const SAMPLE_STACK_USER: u64 = 0x2000;

pub const SAMPLE_WEIGHT: u64 = 0x4000;

pub const SAMPLE_DATA_SRC: u64 = 0x8000;

pub const SAMPLE_IDENTIFIER: u64 = 0x10000;

pub const SAMPLE_TRANSACTION: u64 = 0x20000;

pub const SAMPLE_REGS_INTR: u64 = 0x40000;

pub const FORMAT_TOTAL_TIME_ENABLED: u64 = 0x1;

pub const FORMAT_TOTAL_TIME_RUNNING: u64 = 0x2;

pub const FORMAT_ID: u64 = 0x4;

pub const FORMAT_GROUP: u64 = 0x8;

/// Whether the flag worth `bit` is set in `mask`. Every flag constant
/// is a power of two, so dividing moves the flag to the lowest bit.
pub open spec fn has_flag(mask: u64, bit: u64) -> bool {
    (mask / bit) % 2 == 1
}

pub fn flag(mask: u64, bit: u64) -> (r: bool)
    requires
        bit > 0,
    ensures
        r == has_flag(mask, bit),
{
    (mask / bit) % 2 == 1
}

/// The sampling configuration in effect for the counter whose ring
/// buffer is being decoded, fixed when the counter was opened.
#[derive(Clone, Copy, Debug, PartialEq, Eq, Structural)]
pub struct SampleConfig {
    /// Which optional sample fields are present.
    pub sample_type: u64,
    /// The layout of read-format values.
    pub read_format: u64,
    /// The mask of user-level registers recorded per sample.
    pub regs_user: u64,
    /// The mask of interrupt-time registers recorded per sample.
    pub regs_intr: u64,
}

/// One decoded read-format value: the count, and the optional times and
/// id the read format asked for.
#[derive(Clone, Copy, Debug, PartialEq, Eq, Structural)]
pub struct ReadValue {
    /// The cumulative count.
    pub value: u64,
    /// How long the counter was enabled, when the format carries it.
    pub time_enabled: Option<u64>,
    /// How long the counter was actually running, when the format
    /// carries it.
    pub time_running: Option<u64>,
    /// The unique id of the counter, when the format carries it.
    pub id: Option<u64>,
}

/// One entry of a recorded branch stack.
#[derive(Clone, Copy, Debug, PartialEq, Eq, Structural)]
pub struct BranchEntry {
    /// The source instruction.
    pub from: u64,
    /// The branch target.
    pub to: u64,
    /// The raw flag word (mispredict, prediction, transaction, cycles).
    pub flags: u64,
}

/// A recorded register set.
#[derive(Clone, Debug, PartialEq, Eq)]
pub struct RegsDump {
    /// Which ABI the registers follow; zero when none were captured.
    pub abi: u64,
    /// One value per set bit of the configured register mask, empty
    /// when `abi` is zero.
    pub regs: Vec<u64>,
}

/// The ghost image of a `RegsDump`.
pub struct SpecRegsDump {
    pub abi: u64,
    pub regs: Seq<u64>,
}

impl View for RegsDump {
    type V = SpecRegsDump;

    open spec fn view(&self) -> SpecRegsDump {
        SpecRegsDump { abi: self.abi, regs: self.regs@ }
    }
}

/// A recorded dump of the user stack.
#[derive(Clone, Debug, PartialEq, Eq)]
pub struct StackDump {
    /// The raw stack bytes, as many as the record declared.
    pub data: Vec<u8>,
    /// How many of them were actually dumped; zero when no bytes were
    /// requested, in which case the kernel omits the field.
    pub dyn_size: u64,
}

/// The ghost image of a `StackDump`.
pub struct SpecStackDump {
    pub data: Seq<u8>,
    pub dyn_size: u64,
}

impl View for StackDump {
    type V = SpecStackDump;

    open spec fn view(&self) -> SpecStackDump {
        SpecStackDump { data: self.data@, dyn_size: self.dyn_size }
    }
}

/// One decoded sample. Each field is present exactly when the sampling
/// configuration asked for it.
#[derive(Clone, Debug, PartialEq, Eq)]
pub struct SampleRecord {
    /// The sample's unique id, duplicated at the front for easy access.
    pub identifier: Option<u64>,
    /// The instruction pointer.
    pub ip: Option<u64>,
    /// The process and thread id.
    pub pid_tid: Option<(u32, u32)>,
    /// The timestamp.
    pub time: Option<u64>,
    /// The sampled address.
    pub addr: Option<u64>,
    /// The sample's unique id.
    pub id: Option<u64>,
    /// The sampled counter's own id.
    pub stream_id: Option<u64>,
    /// The CPU the sample happened on, and a reserved word.
    pub cpu_res: Option<(u32, u32)>,
    /// The sampling period in effect.
    pub period: Option<u64>,
    /// The counter value, in the configured read format.
    pub read: Option<ReadValue>,
    /// The call chain: the innermost instruction pointers first.
    pub callchain: Option<Vec<u64>>,
    /// The raw, ABI-opaque bytes.
    pub raw: Option<Vec<u8>>,
    /// The branch stack, most recent branch first.
    pub branch_stack: Option<Vec<BranchEntry>>,
    /// The user-level registers.
    pub regs_user: Option<RegsDump>,
    /// The user stack dump.
    pub stack_user: Option<StackDump>,
    /// How costly the event was.
    pub weight: Option<u64>,
    /// Where in the memory hierarchy a memory access hit.
    pub data_src: Option<u64>,
    /// The sources of transactional-memory aborts.
    pub transaction: Option<u64>,
    /// The interrupt-time registers.
    pub regs_intr: Option<RegsDump>,
}

/// The ghost image of a `SampleRecord`.
pub struct SpecSample {
    pub identifier: Option<u64>,
    pub ip: Option<u64>,
    pub pid_tid: Option<(u32, u32)>,
    pub time: Option<u64>,
    pub addr: Option<u64>,
    pub id: Option<u64>,
    pub stream_id: Option<u64>,
    pub cpu_res: Option<(u32, u32)>,
    pub period: Option<u64>,
    pub read: Option<ReadValue>,
    pub callchain: Option<Seq<u64>>,
    pub raw: Option<Seq<u8>>,
    pub branch_stack: Option<Seq<BranchEntry>>,
    pub regs_user: Option<SpecRegsDump>,
    pub stack_user: Option<SpecStackDump>,
    pub weight: Option<u64>,
    pub data_src: Option<u64>,
    pub transaction: Option<u64>,
    pub regs_intr: Option<SpecRegsDump>,
}

/// The ghost image of an optional vector of words.
pub open spec fn opt_seq_u64(o: Option<Vec<u64>>) -> Option<Seq<u64>> {
    match o {
        Some(v) => Some(v@),
        None => None,
    }
}

/// The ghost image of an optional vector of bytes.
pub open spec fn opt_seq_u8(o: Option<Vec<u8>>) -> Option<Seq<u8>> {
    match o {
        Some(v) => Some(v@),
        None => None,
    }
}

/// The ghost image of an optional branch stack.
pub open spec fn opt_branches(o: Option<Vec<BranchEntry>>) -> Option<Seq<BranchEntry>> {
    match o {
        Some(v) => Some(v@),
        None => None,
    }
}

/// The ghost image of an optional register dump.
pub open spec fn opt_regs(o: Option<RegsDump>) -> Option<SpecRegsDump> {
    match o {
        Some(v) => Some(v@),
        None => None,
    }
}

/// The ghost image of an optional stack dump.
pub open spec fn opt_stack(o: Option<StackDump>) -> Option<SpecStackDump> {
    match o {
        Some(v) => Some(v@),
        None => None,
    }
}

impl View for SampleRecord {
    type V = SpecSample;

    open spec fn view(&self) -> SpecSample {
        SpecSample {
            identifier: self.identifier,
            ip: self.ip,
            pid_tid: self.pid_tid,
            time: self.time,
            addr: self.addr,
            id: self.id,
            stream_id: self.stream_id,
            cpu_res: self.cpu_res,
            period: self.period,
            read: self.read,
            callchain: opt_seq_u64(self.callchain),
            raw: opt_seq_u8(self.raw),
            branch_stack: opt_branches(self.branch_stack),
            regs_user: opt_regs(self.regs_user),
            stack_user: opt_stack(self.stack_user),
            weight: self.weight,
            data_src: self.data_src,
            transaction: self.transaction,
            regs_intr: opt_regs(self.regs_intr),
        }
    }
}

/// An executable decode result matches its specified counterpart when
/// success carries the specified value and failure the specified error.
pub open spec fn models<T: View>(r: Result<T, DecodeError>, s: Result<T::V, DecodeError>) -> bool {
    match r {
        Ok(v) => s is Ok && v@ == s->Ok_0,
        Err(e) => s is Err && e == s->Err_0,
    }
}

// Each optional field of a sample is decoded by a pair of spec
// functions over the same cursor: `step_*` carries the cursor past the
// field (or into the error that stops the parse), and `value_*` is the
// field's content at that cursor. A failed cursor stays failed, so the
// first error wins.

/// Cursor past an optional 64-bit field.
pub open spec fn step_u64(p: Seq<u8>, cond: bool, cur: Result<int, DecodeError>) -> Result<
    int,
    DecodeError,
> {
    match cur {
        Err(e) => Err(e),
        Ok(off) => if !cond {
            Ok(off)
        } else if off + 8 <= p.len() {
            Ok(off + 8)
        } else {
            Err(DecodeError::TruncatedPayload)
        },
    }
}

/// Content of an optional 64-bit field.
pub open spec fn value_u64(p: Seq<u8>, cond: bool, cur: Result<int, DecodeError>) -> Option<u64> {
    match cur {
        Err(_) => None,
        Ok(off) => if cond && off + 8 <= p.len() {
            Some(le_u64(p, off) as u64)
        } else {
            None
        },
    }
}

/// Cursor past an optional pair of 32-bit fields.
pub open spec fn step_pair(p: Seq<u8>, cond: bool, cur: Result<int, DecodeError>) -> Result<
    int,
    DecodeError,
> {
    step_u64(p, cond, cur)
}

/// Content of an optional pair of 32-bit fields.
pub open spec fn value_pair(p: Seq<u8>, cond: bool, cur: Result<int, DecodeError>) -> Option<
    (u32, u32),
> {
    match cur {
        Err(_) => None,
        Ok(off) => if cond && off + 8 <= p.len() {
            Some((le_u32(p, off) as u32, le_u32(p, off + 4) as u32))
        } else {
            None
        },
    }
}

/// The width of a non-group read-format value.
pub open spec fn read_value_len(fmt: u64) -> int {
    8 + (if has_flag(fmt, FORMAT_TOTAL_TIME_ENABLED) {
        8int
    } else {
        0int
    }) + (if has_flag(fmt, FORMAT_TOTAL_TIME_RUNNING) {
        8int
    } else {
        0int
    }) + (if has_flag(fmt, FORMAT_ID) {
        8int
    } else {
        0int
    })
}

/// Cursor past an optional read-format value. A group format would
/// carry one value per group member; this decoder handles only
/// single-counter formats and reports anything else as unsupported.
pub open spec fn step_read(p: Seq<u8>, fmt: u64, cond: bool, cur: Result<int, DecodeError>) -> Result<
    int,
    DecodeError,
> {
    match cur {
        Err(e) => Err(e),
        Ok(off) => if !cond {
            Ok(off)
        } else if has_flag(fmt, FORMAT_GROUP) {
            Err(DecodeError::UnsupportedSampleFormat)
        } else if off + read_value_len(fmt) <= p.len() {
            Ok(off + read_value_len(fmt))
        } else {
            Err(DecodeError::TruncatedPayload)
        },
    }
}

/// Content of an optional read-format value.
pub open spec fn value_read(p: Seq<u8>, fmt: u64, cond: bool, cur: Result<int, DecodeError>) -> Option<
    ReadValue,
> {
    match cur {
        Err(_) => None,
        Ok(off) => if cond && !has_flag(fmt, FORMAT_GROUP) && off + read_value_len(fmt)
            <= p.len() {
            let o_running = off + 8 + if has_flag(fmt, FORMAT_TOTAL_TIME_ENABLED) {
                8int
            } else {
                0int
            };
            let o_id = o_running + if has_flag(fmt, FORMAT_TOTAL_TIME_RUNNING) {
                8int
            } else {
                0int
            };
            Some(
                ReadValue {
                    value: le_u64(p, off) as u64,
                    time_enabled: if has_flag(fmt, FORMAT_TOTAL_TIME_ENABLED) {
                        Some(le_u64(p, off + 8) as u64)
                    } else {
                        None
                    },
                    time_running: if has_flag(fmt, FORMAT_TOTAL_TIME_RUNNING) {
                        Some(le_u64(p, o_running) as u64)
                    } else {
                        None
                    },
                    id: if has_flag(fmt, FORMAT_ID) {
                        Some(le_u64(p, o_id) as u64)
                    } else {
                        None
                    },
                },
            )
        } else {
            None
        },
    }
}

/// Cursor past an optional call chain: a 64-bit entry count, then that
/// many 64-bit instruction pointers. A count that does not fit in the
/// remaining bytes stops the parse.
pub open spec fn step_chain(p: Seq<u8>, cond: bool, cur: Result<int, DecodeError>) -> Result<
    int,
    DecodeError,
> {
    match cur {
        Err(e) => Err(e),
        Ok(off) => if !cond {
            Ok(off)
        } else if off + 8 > p.len() {
            Err(DecodeError::TruncatedPayload)
        } else if le_u64(p, off) > (p.len() - (off + 8)) / 8 {
            Err(DecodeError::CountTooLarge)
        } else {
            Ok(off + 8 + 8 * le_u64(p, off))
        },
    }
}

/// Content of an optional call chain.
pub open spec fn value_chain(p: Seq<u8>, cond: bool, cur: Result<int, DecodeError>) -> Option<
    Seq<u64>,
> {
    match cur {
        Err(_) => None,
        Ok(off) => if cond && off + 8 <= p.len() && le_u64(p, off) <= (p.len() - (off + 8)) / 8 {
            Some(le_u64_seq(p, off + 8, le_u64(p, off)))
        } else {
            None
        },
    }
}

/// The bytes a raw blob occupies: its 32-bit size prefix plus its data,
/// padded so the following field stays 64-bit aligned.
pub open spec fn raw_padded_len(sz: int) -> int {
    ((4 + sz + 7) / 8) * 8
}

/// Cursor past an optional raw blob.
pub open spec fn step_raw(p: Seq<u8>, cond: bool, cur: Result<int, DecodeError>) -> Result<
    int,
    DecodeError,
> {
    match cur {
        Err(e) => Err(e),
        Ok(off) => if !cond {
            Ok(off)
        } else if off + 4 > p.len() {
            Err(DecodeError::TruncatedPayload)
        } else if off + raw_padded_len(le_u32(p, off)) > p.len() {
            Err(DecodeError::CountTooLarge)
        } else {
            Ok(off + raw_padded_len(le_u32(p, off)))
        },
    }
}

/// Content of an optional raw blob.
pub open spec fn value_raw(p: Seq<u8>, cond: bool, cur: Result<int, DecodeError>) -> Option<
    Seq<u8>,
> {
    match cur {
        Err(_) => None,
        Ok(off) => if cond && off + 4 <= p.len() && off + raw_padded_len(le_u32(p, off))
            <= p.len() {
            Some(p.subrange(off + 4, off + 4 + le_u32(p, off)))
        } else {
            None
        },
    }
}

/// Cursor past an optional branch stack: a 64-bit entry count, then
/// that many 24-byte entries.
pub open spec fn step_branches(p: Seq<u8>, cond: bool, cur: Result<int, DecodeError>) -> Result<
    int,
    DecodeError,
> {
    match cur {
        Err(e) => Err(e),
        Ok(off) => if !cond {
            Ok(off)
        } else if off + 8 > p.len() {
            Err(DecodeError::TruncatedPayload)
        } else if le_u64(p, off) > (p.len() - (off + 8)) / 24 {
            Err(DecodeError::CountTooLarge)
        } else {
            Ok(off + 8 + 24 * le_u64(p, off))
        },
    }
}

/// The branch entries encoded at `off`.
pub open spec fn branch_seq(p: Seq<u8>, off: int, n: int) -> Seq<BranchEntry> {
    Seq::new(
        n as nat,
        |i: int|
            BranchEntry {
                from: le_u64(p, off + 24 * i) as u64,
                to: le_u64(p, off + 24 * i + 8) as u64,
                flags: le_u64(p, off + 24 * i + 16) as u64,
            },
    )
}

/// Content of an optional branch stack.
pub open spec fn value_branches(p: Seq<u8>, cond: bool, cur: Result<int, DecodeError>) -> Option<
    Seq<BranchEntry>,
> {
    match cur {
        Err(_) => None,
        Ok(off) => if cond && off + 8 <= p.len() && le_u64(p, off) <= (p.len() - (off + 8)) / 24 {
            Some(branch_seq(p, off + 8, le_u64(p, off)))
        } else {
            None
        },
    }
}

/// Cursor past an optional register dump: a 64-bit ABI word and, when
/// the ABI word is non-zero, one 64-bit value per set bit of the
/// configured register mask.
pub open spec fn step_regs(p: Seq<u8>, mask: u64, cond: bool, cur: Result<int, DecodeError>) -> Result<
    int,
    DecodeError,
> {
    match cur {
        Err(e) => Err(e),
        Ok(off) => if !cond {
            Ok(off)
        } else if off + 8 > p.len() {
            Err(DecodeError::TruncatedPayload)
        } else if le_u64(p, off) == 0 {
            Ok(off + 8)
        } else if spec_popcount(mask as nat) > (p.len() - (off + 8)) / 8 {
            Err(DecodeError::TruncatedPayload)
        } else {
            Ok(off + 8 + 8 * spec_popcount(mask as nat))
        },
    }
}

/// Content of an optional register dump.
pub open spec fn value_regs(p: Seq<u8>, mask: u64, cond: bool, cur: Result<int, DecodeError>) -> Option<
    SpecRegsDump,
> {
    match cur {
        Err(_) => None,
        Ok(off) => if !cond || off + 8 > p.len() {
            None
        } else if le_u64(p, off) == 0 {
            Some(SpecRegsDump { abi: 0, regs: Seq::<u64>::empty() })
        } else if spec_popcount(mask as nat) <= (p.len() - (off + 8)) / 8 {
            Some(
                SpecRegsDump {
                    abi: le_u64(p, off) as u64,
                    regs: le_u64_seq(p, off + 8, spec_popcount(mask as nat) as int),
                },
            )
        } else {
            None
        },
    }
}

/// Cursor past an optional user-stack dump: a 64-bit size, that many
/// raw bytes, and — only when the size is non-zero — the 64-bit count
/// of bytes actually dumped.
pub open spec fn step_stack(p: Seq<u8>, cond: bool, cur: Result<int, DecodeError>) -> Result<
    int,
    DecodeError,
> {
    match cur {
        Err(e) => Err(e),
        Ok(off) => if !cond {
            Ok(off)
        } else if off + 8 > p.len() {
            Err(DecodeError::TruncatedPayload)
        } else if le_u64(p, off) > p.len() - (off + 8) {
            Err(DecodeError::CountTooLarge)
        } else if le_u64(p, off) == 0 {
            Ok(off + 8)
        } else if off + 8 + le_u64(p, off) + 8 > p.len() {
            Err(DecodeError::TruncatedPayload)
        } else {
            Ok(off + 16 + le_u64(p, off))
        },
    }
}

/// Content of an optional user-stack dump.
pub open spec fn value_stack(p: Seq<u8>, cond: bool, cur: Result<int, DecodeError>) -> Option<
    SpecStackDump,
> {
    match cur {
        Err(_) => None,
        Ok(off) => if !cond || off + 8 > p.len() || le_u64(p, off) > p.len() - (off + 8) {
            None
        } else if le_u64(p, off) == 0 {
            Some(SpecStackDump { data: Seq::<u8>::empty(), dyn_size: 0 })
        } else if off + 8 + le_u64(p, off) + 8 <= p.len() {
            Some(
                SpecStackDump {
                    data: p.subrange(off + 8, off + 8 + le_u64(p, off)),
                    dyn_size: le_u64(p, off + 8 + le_u64(p, off)) as u64,
                },
            )
        } else {
            None
        },
    }
}

/// The number of optional fields a sample record can carry.
pub const SAMPLE_FIELDS: u64 = 19;

/// The cursor after the first `k` optional fields of a sample
/// payload, or the error that stopped the parse there.
pub open spec fn sample_cursor(cfg: SampleConfig, p: Seq<u8>, k: int) -> Result<
    int,
    DecodeError,
>
    decreases k,
{
    let st = cfg.sample_type;
    if k <= 0 {
        Ok(0)
    } else {
        let prev = sample_cursor(cfg, p, k - 1);
        if k == 1 {
            step_u64(p, has_flag(st, SAMPLE_IDENTIFIER), prev)
        } else if k == 2 {
            step_u64(p, has_flag(st, SAMPLE_IP), prev)
        } else if k == 3 {
            step_pair(p, has_flag(st, SAMPLE_TID), prev)
        } else if k == 4 {
            step_u64(p, has_flag(st, SAMPLE_TIME), prev)
        } else if k == 5 {
            step_u64(p, has_flag(st, SAMPLE_ADDR), prev)
        } else if k == 6 {
            step_u64(p, has_flag(st, SAMPLE_ID), prev)
        } else if k == 7 {
            step_u64(p, has_flag(st, SAMPLE_STREAM_ID), prev)
        } else if k == 8 {
            step_pair(p, has_flag(st, SAMPLE_CPU), prev)
        } else if k == 9 {
            step_u64(p, has_flag(st, SAMPLE_PERIOD), prev)
        } else if k == 10 {
            step_read(p, cfg.read_format, has_flag(st, SAMPLE_READ), prev)
        } else if k == 11 {
            step_chain(p, has_flag(st, SAMPLE_CALLCHAIN), prev)
        } else if k == 12 {
            step_raw(p, has_flag(st, SAMPLE_RAW), prev)
        } else if k == 13 {
            step_branches(p, has_flag(st, SAMPLE_BRANCH_STACK), prev)
        } else if k == 14 {
            step_regs(p, cfg.regs_user, has_flag(st, SAMPLE_REGS_USER), prev)
        } else if k == 15 {
            step_stack(p, has_flag(st, SAMPLE_STACK_USER), prev)
        } else if k == 16 {
            step_u64(p, has_flag(st, SAMPLE_WEIGHT), prev)
        } else if k == 17 {
            step_u64(p, has_flag(st, SAMPLE_DATA_SRC), prev)
        } else if k == 18 {
            step_u64(p, has_flag(st, SAMPLE_TRANSACTION), prev)
        } else {
            step_regs(p, cfg.regs_intr, has_flag(st, SAMPLE_REGS_INTR), prev)
        }
    }
}

/// Errors of the cursor chain persist: once a field fails to parse,
/// every later cursor reports the same failure.
pub proof fn lemma_sample_cursor_err(cfg: SampleConfig, p: Seq<u8>, k: int, j: int, e: DecodeError)
    requires
        0 <= k <= j,
        sample_cursor(cfg, p, k) == Result::<int, DecodeError>::Err(e),
    ensures
        sample_cursor(cfg, p, j) == Result::<int, DecodeError>::Err(e),
    decreases j - k,
{
    if j > k {
        lemma_sample_cursor_err(cfg, p, k, j - 1, e);
    }
}

/// The sample encoded in payload `p` under configuration `cfg`: each
/// optional field in its fixed order, the cursor threaded through all
/// of them, the first failure stopping the parse.
#[verifier::opaque]
pub open spec fn sp_sample(cfg: SampleConfig, p: Seq<u8>) -> Result<SpecSample, DecodeError> {
    let st = cfg.sample_type;
    match sample_cursor(cfg, p, SAMPLE_FIELDS as int) {
        Err(e) => Err(e),
        Ok(_) => Ok(
            SpecSample {
                identifier: value_u64(p, has_flag(st, SAMPLE_IDENTIFIER), sample_cursor(cfg, p, 0)),
                ip: value_u64(p, has_flag(st, SAMPLE_IP), sample_cursor(cfg, p, 1)),
                pid_tid: value_pair(p, has_flag(st, SAMPLE_TID), sample_cursor(cfg, p, 2)),
                time: value_u64(p, has_flag(st, SAMPLE_TIME), sample_cursor(cfg, p, 3)),
                addr: value_u64(p, has_flag(st, SAMPLE_ADDR), sample_cursor(cfg, p, 4)),
                id: value_u64(p, has_flag(st, SAMPLE_ID), sample_cursor(cfg, p, 5)),
                stream_id: value_u64(p, has_flag(st, SAMPLE_STREAM_ID), sample_cursor(cfg, p, 6)),
                cpu_res: value_pair(p, has_flag(st, SAMPLE_CPU), sample_cursor(cfg, p, 7)),
                period: value_u64(p, has_flag(st, SAMPLE_PERIOD), sample_cursor(cfg, p, 8)),
                read: value_read(p, cfg.read_format, has_flag(st, SAMPLE_READ), sample_cursor(cfg, p, 9)),
                callchain: value_chain(p, has_flag(st, SAMPLE_CALLCHAIN), sample_cursor(cfg, p, 10)),
                raw: value_raw(p, has_flag(st, SAMPLE_RAW), sample_cursor(cfg, p, 11)),
                branch_stack: value_branches(p, has_flag(st, SAMPLE_BRANCH_STACK), sample_cursor(cfg, p, 12)),
                regs_user: value_regs(p, cfg.regs_user, has_flag(st, SAMPLE_REGS_USER), sample_cursor(cfg, p, 13)),
                stack_user: value_stack(p, has_flag(st, SAMPLE_STACK_USER), sample_cursor(cfg, p, 14)),
                weight: value_u64(p, has_flag(st, SAMPLE_WEIGHT), sample_cursor(cfg, p, 15)),
                data_src: value_u64(p, has_flag(st, SAMPLE_DATA_SRC), sample_cursor(cfg, p, 16)),
                transaction: value_u64(p, has_flag(st, SAMPLE_TRANSACTION), sample_cursor(cfg, p, 17)),
                regs_intr: value_regs(p, cfg.regs_intr, has_flag(st, SAMPLE_REGS_INTR), sample_cursor(cfg, p, 18)),
            },
        ),
    }
}

/// Decodes an optional 64-bit field at `off`.
pub fn take_u64(p: &Vec<u8>, cond: bool, off: usize) -> (r: Result<
    (Option<u64>, usize),
    DecodeError,
>)
    requires
        off <= p@.len(),
    ensures
        r is Ok ==> step_u64(p@, cond, Ok(off as int)) == Result::<int, DecodeError>::Ok(
            (r->Ok_0).1 as int,
        ) && value_u64(p@, cond, Ok(off as int)) == (r->Ok_0).0 && off <= (r->Ok_0).1 <= p@.len(),
        r is Err ==> step_u64(p@, cond, Ok(off as int)) == Result::<int, DecodeError>::Err(
            r->Err_0,
        ),
{
    if !cond {
        return Ok((None, off));
    }
    if p.len() - off < 8 {
        return Err(DecodeError::TruncatedPayload);
    }
    let v = read_u64(p, off);
    Ok((Some(v), off + 8))
}

/// Decodes an optional pair of 32-bit fields at `off`.
pub fn take_pair(p: &Vec<u8>, cond: bool, off: usize) -> (r: Result<
    (Option<(u32, u32)>, usize),
    DecodeError,
>)
    requires
        off <= p@.len(),
    ensures
        r is Ok ==> step_pair(p@, cond, Ok(off as int)) == Result::<int, DecodeError>::Ok(
            (r->Ok_0).1 as int,
        ) && value_pair(p@, cond, Ok(off as int)) == (r->Ok_0).0 && off <= (r->Ok_0).1 <= p@.len(),
        r is Err ==> step_pair(p@, cond, Ok(off as int)) == Result::<int, DecodeError>::Err(
            r->Err_0,
        ),
{
    if !cond {
        return Ok((None, off));
    }
    if p.len() - off < 8 {
        return Err(DecodeError::TruncatedPayload);
    }
    let a = read_u32(p, off);
    let b = read_u32(p, off + 4);
    Ok((Some((a, b)), off + 8))
}

/// Decodes an optional read-format value at `off`.
pub fn take_read(p: &Vec<u8>, fmt: u64, cond: bool, off: usize) -> (r: Result<
    (Option<ReadValue>, usize),
    DecodeError,
>)
    requires
        off <= p@.len(),
    ensures
        r is Ok ==> step_read(p@, fmt, cond, Ok(off as int)) == Result::<int, DecodeError>::Ok(
            (r->Ok_0).1 as int,
        ) && value_read(p@, fmt, cond, Ok(off as int)) == (r->Ok_0).0 && off <= (r->Ok_0).1
            <= p@.len(),
        r is Err ==> step_read(p@, fmt, cond, Ok(off as int)) == Result::<int, DecodeError>::Err(
            r->Err_0,
        ),
{
    if !cond {
        return Ok((None, off));
    }
    if flag(fmt, FORMAT_GROUP) {
        return Err(DecodeError::UnsupportedSampleFormat);
    }
    let mut need: usize = 8;
    if flag(fmt, FORMAT_TOTAL_TIME_ENABLED) {
        need = need + 8;
    }
    if flag(fmt, FORMAT_TOTAL_TIME_RUNNING) {
        need = need + 8;
    }
    if flag(fmt, FORMAT_ID) {
        need = need + 8;
    }
    proof {
        assert(need as int == read_value_len(fmt));
    }
    if p.len() - off < need {
        return Err(DecodeError::TruncatedPayload);
    }
    let value = read_u64(p, off);
    let mut o: usize = off + 8;
    let time_enabled: Option<u64>;
    if flag(fmt, FORMAT_TOTAL_TIME_ENABLED) {
        time_enabled = Some(read_u64(p, o));
        o = o + 8;
    } else {
        time_enabled = None;
    }
    let time_running: Option<u64>;
    if flag(fmt, FORMAT_TOTAL_TIME_RUNNING) {
        time_running = Some(read_u64(p, o));
        o = o + 8;
    } else {
        time_running = None;
    }
    let id: Option<u64>;
    if flag(fmt, FORMAT_ID) {
        id = Some(read_u64(p, o));
        o = o + 8;
    } else {
        id = None;
    }
    Ok((Some(ReadValue { value, time_enabled, time_running, id }), o))
}

/// Decodes an optional call chain at `off`.
pub fn take_chain(p: &Vec<u8>, cond: bool, off: usize) -> (r: Result<
    (Option<Vec<u64>>, usize),
    DecodeError,
>)
    requires
        off <= p@.len(),
    ensures
        r is Ok ==> step_chain(p@, cond, Ok(off as int)) == Result::<int, DecodeError>::Ok(
            (r->Ok_0).1 as int,
        ) && value_chain(p@, cond, Ok(off as int)) == opt_seq_u64((r->Ok_0).0) && off <= (
        r->Ok_0).1 <= p@.len(),
        r is Err ==> step_chain(p@, cond, Ok(off as int)) == Result::<int, DecodeError>::Err(
            r->Err_0,
        ),
{
    if !cond {
        return Ok((None, off));
    }
    if p.len() - off < 8 {
        return Err(DecodeError::TruncatedPayload);
    }
    let nr = read_u64(p, off);
    let avail = p.len() - (off + 8);
    if nr > (avail / 8) as u64 {
        return Err(DecodeError::CountTooLarge);
    }
    let n = nr as usize;
    proof {
        assert(8 * n <= avail);
    }
    let mut v: Vec<u64> = Vec::new();
    let mut i: usize = 0;
    while i < n
        invariant
            i <= n,
            off + 8 + 8 * n <= p@.len(),
            p@.len() <= usize::MAX,
            v@ == le_u64_seq(p@, off as int + 8, i as int),
        decreases n - i,
    {
        let x = read_u64(p, off + 8 + 8 * i);
        v.push(x);
        i += 1;
        proof {
            assert(v@ =~= le_u64_seq(p@, off as int + 8, i as int));
        }
    }
    Ok((Some(v), off + 8 + 8 * n))
}

/// Decodes an optional raw blob at `off`.
pub fn take_raw(p: &Vec<u8>, cond: bool, off: usize) -> (r: Result<
    (Option<Vec<u8>>, usize),
    DecodeError,
>)
    requires
        off <= p@.len(),
    ensures
        r is Ok ==> step_raw(p@, cond, Ok(off as int)) == Result::<int, DecodeError>::Ok(
            (r->Ok_0).1 as int,
        ) && value_raw(p@, cond, Ok(off as int)) == opt_seq_u8((r->Ok_0).0) && off <= (r->Ok_0).1
            <= p@.len(),
        r is Err ==> step_raw(p@, cond, Ok(off as int)) == Result::<int, DecodeError>::Err(
            r->Err_0,
        ),
{
    if !cond {
        return Ok((None, off));
    }
    if p.len() - off < 4 {
        return Err(DecodeError::TruncatedPayload);
    }
    let sz = read_u32(p, off);
    let padded64: u64 = ((4 + sz as u64 + 7) / 8) * 8;
    proof {
        assert(padded64 as int == raw_padded_len(le_u32(p@, off as int)));
        assert(padded64 >= 4 + sz as u64);
    }
    if padded64 > (p.len() - off) as u64 {
        return Err(DecodeError::CountTooLarge);
    }
    let padded = padded64 as usize;
    let data = subvec(p, off + 4, off + 4 + sz as usize);
    Ok((Some(data), off + padded))
}

/// Decodes an optional branch stack at `off`.
pub fn take_branches(p: &Vec<u8>, cond: bool, off: usize) -> (r: Result<
    (Option<Vec<BranchEntry>>, usize),
    DecodeError,
>)
    requires
        off <= p@.len(),
    ensures
        r is Ok ==> step_branches(p@, cond, Ok(off as int)) == Result::<int, DecodeError>::Ok(
            (r->Ok_0).1 as int,
        ) && value_branches(p@, cond, Ok(off as int)) == opt_branches((r->Ok_0).0) && off <= (
        r->Ok_0).1 <= p@.len(),
        r is Err ==> step_branches(p@, cond, Ok(off as int)) == Result::<int, DecodeError>::Err(
            r->Err_0,
        ),
{
    if !cond {
        return Ok((None, off));
    }
    if p.len() - off < 8 {
        return Err(DecodeError::TruncatedPayload);
    }
    let nr = read_u64(p, off);
    let avail = p.len() - (off + 8);
    if nr > (avail / 24) as u64 {
        return Err(DecodeError::CountTooLarge);
    }
    let n = nr as usize;
    proof {
        assert(24 * n <= avail);
    }
    let mut v: Vec<BranchEntry> = Vec::new();
    let mut i: usize = 0;
    while i < n
        invariant
            i <= n,
            off + 8 + 24 * n <= p@.len(),
            p@.len() <= usize::MAX,
            v@ == branch_seq(p@, off as int + 8, i as int),
        decreases n - i,
    {
        let base = off + 8 + 24 * i;
        let e_from = read_u64(p, base);
        let e_to = read_u64(p, base + 8);
        let e_flags = read_u64(p, base + 16);
        v.push(BranchEntry { from: e_from, to: e_to, flags: e_flags });
        i += 1;
        proof {
            assert(v@ =~= branch_seq(p@, off as int + 8, i as int));
        }
    }
    Ok((Some(v), off + 8 + 24 * n))
}

/// Decodes an optional register dump at `off`.
pub fn take_regs(p: &Vec<u8>, mask: u64, cond: bool, off: usize) -> (r: Result<
    (Option<RegsDump>, usize),
    DecodeError,
>)
    requires
        off <= p@.len(),
    ensures
        r is Ok ==> step_regs(p@, mask, cond, Ok(off as int)) == Result::<int, DecodeError>::Ok(
            (r->Ok_0).1 as int,
        ) && value_regs(p@, mask, cond, Ok(off as int)) == opt_regs((r->Ok_0).0) && off <= (
        r->Ok_0).1 <= p@.len(),
        r is Err ==> step_regs(p@, mask, cond, Ok(off as int)) == Result::<int, DecodeError>::Err(
            r->Err_0,
        ),
{
    if !cond {
        return Ok((None, off));
    }
    if p.len() - off < 8 {
        return Err(DecodeError::TruncatedPayload);
    }
    let abi = read_u64(p, off);
    if abi == 0 {
        return Ok((Some(RegsDump { abi: 0, regs: Vec::new() }), off + 8));
    }
    let cnt32 = popcount64(mask);
    let cnt = cnt32 as usize;
    let avail = p.len() - (off + 8);
    if cnt > avail / 8 {
        return Err(DecodeError::TruncatedPayload);
    }
    proof {
        assert(8 * cnt <= avail);
    }
    let mut v: Vec<u64> = Vec::new();
    let mut i: usize = 0;
    while i < cnt
        invariant
            i <= cnt,
            off + 8 + 8 * cnt <= p@.len(),
            p@.len() <= usize::MAX,
            v@ == le_u64_seq(p@, off as int + 8, i as int),
        decreases cnt - i,
    {
        let x = read_u64(p, off + 8 + 8 * i);
        v.push(x);
        i += 1;
        proof {
            assert(v@ =~= le_u64_seq(p@, off as int + 8, i as int));
        }
    }
    Ok((Some(RegsDump { abi, regs: v }), off + 8 + 8 * cnt))
}

/// Decodes an optional user-stack dump at `off`.
pub fn take_stack(p: &Vec<u8>, cond: bool, off: usize) -> (r: Result<
    (Option<StackDump>, usize),
    DecodeError,
>)
    requires
        off <= p@.len(),
    ensures
        r is Ok ==> step_stack(p@, cond, Ok(off as int)) == Result::<int, DecodeError>::Ok(
            (r->Ok_0).1 as int,
        ) && value_stack(p@, cond, Ok(off as int)) == opt_stack((r->Ok_0).0) && off <= (r->Ok_0).1
            <= p@.len(),
        r is Err ==> step_stack(p@, cond, Ok(off as int)) == Result::<int, DecodeError>::Err(
            r->Err_0,
        ),
{
    if !cond {
        return Ok((None, off));
    }
    if p.len() - off < 8 {
        return Err(DecodeError::TruncatedPayload);
    }
    let sz64 = read_u64(p, off);
    let avail = p.len() - (off + 8);
    if sz64 > avail as u64 {
        return Err(DecodeError::CountTooLarge);
    }
    let sz = sz64 as usize;
    if sz == 0 {
        return Ok((Some(StackDump { data: Vec::new(), dyn_size: 0 }), off + 8));
    }
    if avail - sz < 8 {
        return Err(DecodeError::TruncatedPayload);
    }
    let data = subvec(p, off + 8, off + 8 + sz);
    let dyn_size = read_u64(p, off + 8 + sz);
    Ok((Some(StackDump { data, dyn_size }), off + 16 + sz))
}


/// The fixed-width fields at the front of a sample record, decoded
/// together before the variable-length fields that follow them.
#[derive(Clone, Copy, Debug)]
pub struct SampleScalars {
    pub identifier: Option<u64>,
    pub ip: Option<u64>,
    pub pid_tid: Option<(u32, u32)>,
    pub time: Option<u64>,
    pub addr: Option<u64>,
    pub id: Option<u64>,
    pub stream_id: Option<u64>,
    pub cpu_res: Option<(u32, u32)>,
    pub period: Option<u64>,
    pub read: Option<ReadValue>,
}

/// Decodes the fixed-width fields at the front of a sample payload.
fn parse_sample_scalars(cfg: SampleConfig, p: &Vec<u8>) -> (r: Result<
    (SampleScalars, usize),
    DecodeError,
>)
    ensures
        r is Err ==> sample_cursor(cfg, p@, 10) == Result::<int, DecodeError>::Err(r->Err_0),
        r is Ok ==> sample_cursor(cfg, p@, 10) == Result::<int, DecodeError>::Ok(
            (r->Ok_0).1 as int,
        ) && (r->Ok_0).1 <= p@.len(),
        r is Ok ==> (r->Ok_0).0.identifier == value_u64(p@, has_flag(cfg.sample_type, SAMPLE_IDENTIFIER), sample_cursor(cfg, p@, 0)),
        r is Ok ==> (r->Ok_0).0.ip == value_u64(p@, has_flag(cfg.sample_type, SAMPLE_IP), sample_cursor(cfg, p@, 1)),
        r is Ok ==> (r->Ok_0).0.pid_tid == value_pair(p@, has_flag(cfg.sample_type, SAMPLE_TID), sample_cursor(cfg, p@, 2)),
        r is Ok ==> (r->Ok_0).0.time == value_u64(p@, has_flag(cfg.sample_type, SAMPLE_TIME), sample_cursor(cfg, p@, 3)),
        r is Ok ==> (r->Ok_0).0.addr == value_u64(p@, has_flag(cfg.sample_type, SAMPLE_ADDR), sample_cursor(cfg, p@, 4)),
        r is Ok ==> (r->Ok_0).0.id == value_u64(p@, has_flag(cfg.sample_type, SAMPLE_ID), sample_cursor(cfg, p@, 5)),
        r is Ok ==> (r->Ok_0).0.stream_id == value_u64(p@, has_flag(cfg.sample_type, SAMPLE_STREAM_ID), sample_cursor(cfg, p@, 6)),
        r is Ok ==> (r->Ok_0).0.cpu_res == value_pair(p@, has_flag(cfg.sample_type, SAMPLE_CPU), sample_cursor(cfg, p@, 7)),
        r is Ok ==> (r->Ok_0).0.period == value_u64(p@, has_flag(cfg.sample_type, SAMPLE_PERIOD), sample_cursor(cfg, p@, 8)),
        r is Ok ==> (r->Ok_0).0.read == value_read(p@, cfg.read_format, has_flag(cfg.sample_type, SAMPLE_READ), sample_cursor(cfg, p@, 9)),
{
    let st = cfg.sample_type;
    let mut off: usize = 0;
    proof {
        assert(sample_cursor(cfg, p@, 0) == Result::<int, DecodeError>::Ok(off as int));
    }

    let identifier: Option<u64>;
    match take_u64(p, flag(st, SAMPLE_IDENTIFIER), off) {
        Ok(x) => {
            identifier = x.0;
            off = x.1;
            proof {
                assert(sample_cursor(cfg, p@, 1) == Result::<int, DecodeError>::Ok(off as int));
            }
        },
        Err(e) => {
            proof {
                assert(sample_cursor(cfg, p@, 1) == Result::<int, DecodeError>::Err(e));
                lemma_sample_cursor_err(cfg, p@, 1, 10, e);
            }
            return Err(e);
        },
    }

    let ip: Option<u64>;
    match take_u64(p, flag(st, SAMPLE_IP), off) {
        Ok(x) => {
            ip = x.0;
            off = x.1;
            proof {
                assert(sample_cursor(cfg, p@, 2) == Result::<int, DecodeError>::Ok(off as int));
            }
        },
        Err(e) => {
            proof {
                assert(sample_cursor(cfg, p@, 2) == Result::<int, DecodeError>::Err(e));
                lemma_sample_cursor_err(cfg, p@, 2, 10, e);
            }
            return Err(e);
        },
    }

    let pid_tid: Option<(u32, u32)>;
    match take_pair(p, flag(st, SAMPLE_TID), off) {
        Ok(x) => {
            pid_tid = x.0;
            off = x.1;
            proof {
                assert(sample_cursor(cfg, p@, 3) == Result::<int, DecodeError>::Ok(off as int));
            }
        },
        Err(e) => {
            proof {
                assert(sample_cursor(cfg, p@, 3) == Result::<int, DecodeError>::Err(e));
                lemma_sample_cursor_err(cfg, p@, 3, 10, e);
            }
            return Err(e);
        },
    }

    let time: Option<u64>;
    match take_u64(p, flag(st, SAMPLE_TIME), off) {
        Ok(x) => {
            time = x.0;
            off = x.1;
            proof {
                assert(sample_cursor(cfg, p@, 4) == Result::<int, DecodeError>::Ok(off as int));
            }
        },
        Err(e) => {
            proof {
                assert(sample_cursor(cfg, p@, 4) == Result::<int, DecodeError>::Err(e));
                lemma_sample_cursor_err(cfg, p@, 4, 10, e);
            }
            return Err(e);
        },
    }

    let addr: Option<u64>;
    match take_u64(p, flag(st, SAMPLE_ADDR), off) {
        Ok(x) => {
            addr = x.0;
            off = x.1;
            proof {
                assert(sample_cursor(cfg, p@, 5) == Result::<int, DecodeError>::Ok(off as int));
            }
        },
        Err(e) => {
            proof {
                assert(sample_cursor(cfg, p@, 5) == Result::<int, DecodeError>::Err(e));
                lemma_sample_cursor_err(cfg, p@, 5, 10, e);
            }
            return Err(e);
        },
    }

    let id: Option<u64>;
    match take_u64(p, flag(st, SAMPLE_ID), off) {
        Ok(x) => {
            id = x.0;
            off = x.1;
            proof {
                assert(sample_cursor(cfg, p@, 6) == Result::<int, DecodeError>::Ok(off as int));
            }
        },
        Err(e) => {
            proof {
                assert(sample_cursor(cfg, p@, 6) == Result::<int, DecodeError>::Err(e));
                lemma_sample_cursor_err(cfg, p@, 6, 10, e);
            }
            return Err(e);
        },
    }

    let stream_id: Option<u64>;
    match take_u64(p, flag(st, SAMPLE_STREAM_ID), off) {
        Ok(x) => {
            stream_id = x.0;
            off = x.1;
            proof {
                assert(sample_cursor(cfg, p@, 7) == Result::<int, DecodeError>::Ok(off as int));
            }
        },
        Err(e) => {
            proof {
                assert(sample_cursor(cfg, p@, 7) == Result::<int, DecodeError>::Err(e));
                lemma_sample_cursor_err(cfg, p@, 7, 10, e);
            }
            return Err(e);
        },
    }

    let cpu_res: Option<(u32, u32)>;
    match take_pair(p, flag(st, SAMPLE_CPU), off) {
        Ok(x) => {
            cpu_res = x.0;
            off = x.1;
            proof {
                assert(sample_cursor(cfg, p@, 8) == Result::<int, DecodeError>::Ok(off as int));
            }
        },
        Err(e) => {
            proof {
                assert(sample_cursor(cfg, p@, 8) == Result::<int, DecodeError>::Err(e));
                lemma_sample_cursor_err(cfg, p@, 8, 10, e);
            }
            return Err(e);
        },
    }

    let period: Option<u64>;
    match take_u64(p, flag(st, SAMPLE_PERIOD), off) {
        Ok(x) => {
            period = x.0;
            off = x.1;
            proof {
                assert(sample_cursor(cfg, p@, 9) == Result::<int, DecodeError>::Ok(off as int));
            }
        },
        Err(e) => {
            proof {
                assert(sample_cursor(cfg, p@, 9) == Result::<int, DecodeError>::Err(e));
                lemma_sample_cursor_err(cfg, p@, 9, 10, e);
            }
            return Err(e);
        },
    }

    let read: Option<ReadValue>;
    match take_read(p, cfg.read_format, flag(st, SAMPLE_READ), off) {
        Ok(x) => {
            read = x.0;
            off = x.1;
            proof {
                assert(sample_cursor(cfg, p@, 10) == Result::<int, DecodeError>::Ok(off as int));
            }
        },
        Err(e) => {
            proof {
                assert(sample_cursor(cfg, p@, 10) == Result::<int, DecodeError>::Err(e));
                lemma_sample_cursor_err(cfg, p@, 10, 10, e);
            }
            return Err(e);
        },
    }

    let sc = SampleScalars {
        identifier,
        ip,
        pid_tid,
        time,
        addr,
        id,
        stream_id,
        cpu_res,
        period,
        read,
    };
    Ok((sc, off))
}

/// Decodes one sample payload under the given configuration: each
/// optional field in its fixed order, the first malformed field
/// stopping the parse with an error value.
#[verifier::rlimit(100)]
pub fn parse_sample(cfg: SampleConfig, p: &Vec<u8>) -> (r: Result<SampleRecord, DecodeError>)
    ensures
        models(r, sp_sample(cfg, p@)),
{
    let st = cfg.sample_type;
    let sc: SampleScalars;
    let mut off: usize;
    match parse_sample_scalars(cfg, p) {
        Ok(x) => {
            sc = x.0;
            off = x.1;
        },
        Err(e) => {
            proof {
                reveal(crate::sample::payload::sp_sample);
                lemma_sample_cursor_err(cfg, p@, 10, SAMPLE_FIELDS as int, e);
            }
            return Err(e);
        },
    }

    let callchain: Option<Vec<u64>>;
    match take_chain(p, flag(st, SAMPLE_CALLCHAIN), off) {
        Ok(x) => {
            callchain = x.0;
            off = x.1;
            proof {
                reveal(crate::sample::payload::sp_sample);
                assert(sample_cursor(cfg, p@, 11) == Result::<int, DecodeError>::Ok(off as int));
            }
        },
        Err(e) => {
            proof {
                reveal(crate::sample::payload::sp_sample);
                assert(sample_cursor(cfg, p@, 11) == Result::<int, DecodeError>::Err(e));
                lemma_sample_cursor_err(cfg, p@, 11, SAMPLE_FIELDS as int, e);
            }
            return Err(e);
        },
    }

    let raw: Option<Vec<u8>>;
    match take_raw(p, flag(st, SAMPLE_RAW), off) {
        Ok(x) => {
            raw = x.0;
            off = x.1;
            proof {
                reveal(crate::sample::payload::sp_sample);
                assert(sample_cursor(cfg, p@, 12) == Result::<int, DecodeError>::Ok(off as int));
            }
        },
        Err(e) => {
            proof {
                reveal(crate::sample::payload::sp_sample);
                assert(sample_cursor(cfg, p@, 12) == Result::<int, DecodeError>::Err(e));
                lemma_sample_cursor_err(cfg, p@, 12, SAMPLE_FIELDS as int, e);
            }
            return Err(e);
        },
    }

    let branch_stack: Option<Vec<BranchEntry>>;
    match take_branches(p, flag(st, SAMPLE_BRANCH_STACK), off) {
        Ok(x) => {
            branch_stack = x.0;
            off = x.1;
            proof {
                reveal(crate::sample::payload::sp_sample);
                assert(sample_cursor(cfg, p@, 13) == Result::<int, DecodeError>::Ok(off as int));
            }
        },
        Err(e) => {
            proof {
                reveal(crate::sample::payload::sp_sample);
                assert(sample_cursor(cfg, p@, 13) == Result::<int, DecodeError>::Err(e));
                lemma_sample_cursor_err(cfg, p@, 13, SAMPLE_FIELDS as int, e);
            }
            return Err(e);
        },
    }

    let regs_user: Option<RegsDump>;
    match take_regs(p, cfg.regs_user, flag(st, SAMPLE_REGS_USER), off) {
        Ok(x) => {
            regs_user = x.0;
            off = x.1;
            proof {
                reveal(crate::sample::payload::sp_sample);
                assert(sample_cursor(cfg, p@, 14) == Result::<int, DecodeError>::Ok(off as int));
            }
        },
        Err(e) => {
            proof {
                reveal(crate::sample::payload::sp_sample);
                assert(sample_cursor(cfg, p@, 14) == Result::<int, DecodeError>::Err(e));
                lemma_sample_cursor_err(cfg, p@, 14, SAMPLE_FIELDS as int, e);
            }
            return Err(e);
        },
    }

    let stack_user: Option<StackDump>;
    match take_stack(p, flag(st, SAMPLE_STACK_USER), off) {
        Ok(x) => {
            stack_user = x.0;
            off = x.1;
            proof {
                reveal(crate::sample::payload::sp_sample);
                assert(sample_cursor(cfg, p@, 15) == Result::<int, DecodeError>::Ok(off as int));
            }
        },
        Err(e) => {
            proof {
                reveal(crate::sample::payload::sp_sample);
                assert(sample_cursor(cfg, p@, 15) == Result::<int, DecodeError>::Err(e));
                lemma_sample_cursor_err(cfg, p@, 15, SAMPLE_FIELDS as int, e);
            }
            return Err(e);
        },
    }

    let weight: Option<u64>;
    match take_u64(p, flag(st, SAMPLE_WEIGHT), off) {
        Ok(x) => {
            weight = x.0;
            off = x.1;
            proof {
                reveal(crate::sample::payload::sp_sample);
                assert(sample_cursor(cfg, p@, 16) == Result::<int, DecodeError>::Ok(off as int));
            }
        },
        Err(e) => {
            proof {
                reveal(crate::sample::payload::sp_sample);
                assert(sample_cursor(cfg, p@, 16) == Result::<int, DecodeError>::Err(e));
                lemma_sample_cursor_err(cfg, p@, 16, SAMPLE_FIELDS as int, e);
            }
            return Err(e);
        },
    }

    let data_src: Option<u64>;
    match take_u64(p, flag(st, SAMPLE_DATA_SRC), off) {
        Ok(x) => {
            data_src = x.0;
            off = x.1;
            proof {
                reveal(crate::sample::payload::sp_sample);
                assert(sample_cursor(cfg, p@, 17) == Result::<int, DecodeError>::Ok(off as int));
            }
        },
        Err(e) => {
            proof {
                reveal(crate::sample::payload::sp_sample);
                assert(sample_cursor(cfg, p@, 17) == Result::<int, DecodeError>::Err(e));
                lemma_sample_cursor_err(cfg, p@, 17, SAMPLE_FIELDS as int, e);
            }
            return Err(e);
        },
    }

    let transaction: Option<u64>;
    match take_u64(p, flag(st, SAMPLE_TRANSACTION), off) {
        Ok(x) => {
            transaction = x.0;
            off = x.1;
            proof {
                reveal(crate::sample::payload::sp_sample);
                assert(sample_cursor(cfg, p@, 18) == Result::<int, DecodeError>::Ok(off as int));
            }
        },
        Err(e) => {
            proof {
                reveal(crate::sample::payload::sp_sample);
                assert(sample_cursor(cfg, p@, 18) == Result::<int, DecodeError>::Err(e));
                lemma_sample_cursor_err(cfg, p@, 18, SAMPLE_FIELDS as int, e);
            }
            return Err(e);
        },
    }

    let regs_intr: Option<RegsDump>;
    match take_regs(p, cfg.regs_intr, flag(st, SAMPLE_REGS_INTR), off) {
        Ok(x) => {
            regs_intr = x.0;
            off = x.1;
            proof {
                reveal(crate::sample::payload::sp_sample);
                assert(sample_cursor(cfg, p@, 19) == Result::<int, DecodeError>::Ok(off as int));
            }
        },
        Err(e) => {
            proof {
                reveal(crate::sample::payload::sp_sample);
                assert(sample_cursor(cfg, p@, 19) == Result::<int, DecodeError>::Err(e));
                lemma_sample_cursor_err(cfg, p@, 19, SAMPLE_FIELDS as int, e);
            }
            return Err(e);
        },
    }

    let s = SampleRecord {
        identifier: sc.identifier,
        ip: sc.ip,
        pid_tid: sc.pid_tid,
        time: sc.time,
        addr: sc.addr,
        id: sc.id,
        stream_id: sc.stream_id,
        cpu_res: sc.cpu_res,
        period: sc.period,
        read: sc.read,
        callchain,
        raw,
        branch_stack,
        regs_user,
        stack_user,
        weight,
        data_src,
        transaction,
        regs_intr,
    };
    proof {
        reveal(crate::sample::payload::sp_sample);
        assert(sp_sample(cfg, p@) is Ok);
        assert(s@ == sp_sample(cfg, p@)->Ok_0);
    }
    Ok(s)
}

} // verus!
