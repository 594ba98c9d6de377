//! Typed decoding of ring-buffer records.
//!
//! Every record starts with a fixed eight-byte header: a 32-bit type
//! tag, a 16-bit misc word, and a 16-bit total size that governs how
//! many bytes belong to the record. The payload layout depends on the
//! record kind, and inside a sample record on the sampling
//! configuration fixed when the originating counter was opened. The
//! bytes come from the kernel's shared buffer and are only half
//! trusted: anything malformed decodes to an error value, never to a
//! panic.

use vstd::prelude::*;

use crate::error::DecodeError;
use crate::sample::payload::models;
use crate::sample::payload::parse_sample;
use crate::sample::payload::sp_sample;
use crate::sample::payload::step_read;
use crate::sample::payload::take_read;
use crate::sample::payload::value_read;
use crate::sample::payload::ReadValue;
use crate::sample::payload::SampleConfig;
use crate::sample::payload::SampleRecord;
use crate::sample::payload::SpecSample;
use crate::sample::wire::cstr;
use crate::sample::wire::le_u16;
use crate::sample::wire::le_u32;
use crate::sample::wire::le_u64;
use crate::sample::wire::read_cstr;
use crate::sample::wire::read_u16;
use crate::sample::wire::read_u32;
use crate::sample::wire::read_u64;
use crate::sample::wire::subvec;

verus! {

/// Where the sampled activity happened, from the low bits of the misc
/// word. Exactly one mode applies to each record.
#[derive(Clone, Copy, Debug, PartialEq, Eq, Structural)]
pub enum CpuMode {
    /// The mode could not be determined.
    Unknown,
    /// The sample happened in the kernel.
    Kernel,
    /// The sample happened in user code.
    User,
    /// The sample happened in the hypervisor.
    Hypervisor,
    /// The sample happened in the guest kernel.
    GuestKernel,
    /// The sample happened in guest user code.
    GuestUser,
}

pub const CPUMODE_UNKNOWN: u16 = 0;

pub const CPUMODE_KERNEL: u16 = 1;

pub const CPUMODE_USER: u16 = 2;

pub const CPUMODE_HYPERVISOR: u16 = 3;

pub const CPUMODE_GUEST_KERNEL: u16 = 4;

pub const CPUMODE_GUEST_USER: u16 = 5;

/// The context-dependent flag bit shared by mmap, comm and switch
/// records (non-executable mapping / exec-caused rename / switching
/// away).
pub const MISC_MULTIPURPOSE_BIT: u16 = 0x2000;

/// The flag bit saying the recorded instruction pointer is exact.
pub const MISC_EXACT_IP_BIT: u16 = 0x4000;

/// The flag bit reserved for extended data.
pub const MISC_EXT_RESERVED_BIT: u16 = 0x8000;

impl CpuMode {
    /// The mode encoded in the three low bits of the misc word, if it
    /// is one of the defined modes.
    pub open spec fn from_bits_spec(n: u16) -> Result<CpuMode, DecodeError> {
        let mode = n % 8;
        if mode == CPUMODE_UNKNOWN {
            Ok(CpuMode::Unknown)
        } else if mode == CPUMODE_KERNEL {
            Ok(CpuMode::Kernel)
        } else if mode == CPUMODE_USER {
            Ok(CpuMode::User)
        } else if mode == CPUMODE_HYPERVISOR {
            Ok(CpuMode::Hypervisor)
        } else if mode == CPUMODE_GUEST_KERNEL {
            Ok(CpuMode::GuestKernel)
        } else if mode == CPUMODE_GUEST_USER {
            Ok(CpuMode::GuestUser)
        } else {
            Err(DecodeError::UnrecognizedCpuMode(mode))
        }
    }

    /// Classifies the cpu-mode subfield of a misc word. The two
    /// undefined subfield values decode to an error, never to a panic:
    /// the word comes from a buffer a future kernel may have written.
    pub fn from_bits(n: u16) -> (r: Result<CpuMode, DecodeError>)
        ensures
            r == CpuMode::from_bits_spec(n),
    {
        let mode = n % 8;
        if mode == CPUMODE_UNKNOWN {
            Ok(CpuMode::Unknown)
        } else if mode == CPUMODE_KERNEL {
            Ok(CpuMode::Kernel)
        } else if mode == CPUMODE_USER {
            Ok(CpuMode::User)
        } else if mode == CPUMODE_HYPERVISOR {
            Ok(CpuMode::Hypervisor)
        } else if mode == CPUMODE_GUEST_KERNEL {
            Ok(CpuMode::GuestKernel)
        } else if mode == CPUMODE_GUEST_USER {
            Ok(CpuMode::GuestUser)
        } else {
            Err(DecodeError::UnrecognizedCpuMode(mode))
        }
    }
}

/// The decoded misc word: the cpu mode plus three single-bit flags. The
/// multipurpose flag's meaning depends on the record kind it
/// accompanies — this decoder reports the bit and the caller interprets
/// it in the light of the record's type.
#[derive(Clone, Copy, Debug, PartialEq, Eq, Structural)]
pub struct Metadata {
    /// Where the sampled activity happened.
    pub cpu_mode: CpuMode,
    /// For an mmap record: the mapping is not executable. For a comm
    /// record: the name change was caused by exec. For a switch or
    /// switch-cpu-wide record: the context switch is away from the
    /// current process.
    pub multipurpose: bool,
    /// The recorded instruction pointer is the one that triggered the
    /// event.
    pub exact_ip: bool,
    /// Extended data is available.
    pub ext_reserved: bool,
}

/// Whether the flag bit worth `bit` is set in `n`. `bit` is a power of
/// two, so dividing shifts the flag to the low bit.
pub open spec fn misc_flag(n: u16, bit: u16) -> bool {
    (n / bit) % 2 == 1
}

impl Metadata {
    /// The decoded misc word, if its cpu-mode subfield is defined.
    pub open spec fn from_bits_spec(n: u16) -> Result<Metadata, DecodeError> {
        match CpuMode::from_bits_spec(n) {
            Ok(cpu_mode) => Ok(
                Metadata {
                    cpu_mode,
                    multipurpose: misc_flag(n, MISC_MULTIPURPOSE_BIT),
                    exact_ip: misc_flag(n, MISC_EXACT_IP_BIT),
                    ext_reserved: misc_flag(n, MISC_EXT_RESERVED_BIT),
                },
            ),
            Err(e) => Err(e),
        }
    }

    /// Decodes a misc word: the cpu mode from the low bits, each flag
    /// present exactly when its bit is set.
    pub fn from_bits(n: u16) -> (r: Result<Metadata, DecodeError>)
        ensures
            r == Metadata::from_bits_spec(n),
    {
        match CpuMode::from_bits(n) {
            Ok(cpu_mode) => Ok(
                Metadata {
                    cpu_mode,
                    multipurpose: (n / MISC_MULTIPURPOSE_BIT) % 2 == 1,
                    exact_ip: (n / MISC_EXACT_IP_BIT) % 2 == 1,
                    ext_reserved: (n / MISC_EXT_RESERVED_BIT) % 2 == 1,
                },
            ),
            Err(e) => Err(e),
        }
    }
}

/// The closed enumeration of record kinds the kernel writes, each
/// matching one wire tag value.
#[derive(Clone, Copy, Debug, PartialEq, Eq, Structural)]
pub enum SampledEventType {
    /// An executable mapping was created.
    Mmap,
    /// Events were lost.
    Lost,
    /// A process changed its name.
    Comm,
    /// A process exited.
    Exit,
    /// Sampling was throttled or unthrottled.
    ThrottleUnthrottle,
    /// A process forked.
    Fork,
    /// A read event.
    Read,
    /// One sample.
    Sample,
    /// A mapping with identity information.
    Mmap2,
    /// New data in the auxiliary buffer area.
    Aux,
    /// A process started an instruction trace.
    ItraceStart,
    /// Samples may have been lost.
    LostSamples,
    /// A context switch happened.
    Switch,
    /// A context switch happened, observed CPU-wide.
    SwitchCpuWide,
}

pub const RECORD_MMAP: u32 = 1;

pub const RECORD_LOST: u32 = 2;

pub const RECORD_COMM: u32 = 3;

pub const RECORD_EXIT: u32 = 4;

pub const RECORD_THROTTLE: u32 = 5;

pub const RECORD_UNTHROTTLE: u32 = 6;

pub const RECORD_FORK: u32 = 7;

pub const RECORD_READ: u32 = 8;

pub const RECORD_SAMPLE: u32 = 9;

pub const RECORD_MMAP2: u32 = 10;

pub const RECORD_AUX: u32 = 11;

pub const RECORD_ITRACE_START: u32 = 12;

pub const RECORD_LOST_SAMPLES: u32 = 13;

pub const RECORD_SWITCH: u32 = 14;

pub const RECORD_SWITCH_CPU_WIDE: u32 = 15;

impl SampledEventType {
    /// The record kind a wire tag names, if any. The throttle and
    /// unthrottle tags are the two faces of one kind.
    pub open spec fn from_u32_spec(tag: u32) -> Option<SampledEventType> {
        if tag == RECORD_MMAP {
            Some(SampledEventType::Mmap)
        } else if tag == RECORD_LOST {
            Some(SampledEventType::Lost)
        } else if tag == RECORD_COMM {
            Some(SampledEventType::Comm)
        } else if tag == RECORD_EXIT {
            Some(SampledEventType::Exit)
        } else if tag == RECORD_THROTTLE || tag == RECORD_UNTHROTTLE {
            Some(SampledEventType::ThrottleUnthrottle)
        } else if tag == RECORD_FORK {
            Some(SampledEventType::Fork)
        } else if tag == RECORD_READ {
            Some(SampledEventType::Read)
        } else if tag == RECORD_SAMPLE {
            Some(SampledEventType::Sample)
        } else if tag == RECORD_MMAP2 {
            Some(SampledEventType::Mmap2)
        } else if tag == RECORD_AUX {
            Some(SampledEventType::Aux)
        } else if tag == RECORD_ITRACE_START {
            Some(SampledEventType::ItraceStart)
        } else if tag == RECORD_LOST_SAMPLES {
            Some(SampledEventType::LostSamples)
        } else if tag == RECORD_SWITCH {
            Some(SampledEventType::Switch)
        } else if tag == RECORD_SWITCH_CPU_WIDE {
            Some(SampledEventType::SwitchCpuWide)
        } else {
            None
        }
    }

    /// Classifies a wire tag by exact numeric match; a tag this library
    /// does not know yields `None`, which decoding reports as an error.
    pub fn from_u32(tag: u32) -> (r: Option<SampledEventType>)
        ensures
            r == SampledEventType::from_u32_spec(tag),
    {
        if tag == RECORD_MMAP {
            Some(SampledEventType::Mmap)
        } else if tag == RECORD_LOST {
            Some(SampledEventType::Lost)
        } else if tag == RECORD_COMM {
            Some(SampledEventType::Comm)
        } else if tag == RECORD_EXIT {
            Some(SampledEventType::Exit)
        } else if tag == RECORD_THROTTLE || tag == RECORD_UNTHROTTLE {
            Some(SampledEventType::ThrottleUnthrottle)
        } else if tag == RECORD_FORK {
            Some(SampledEventType::Fork)
        } else if tag == RECORD_READ {
            Some(SampledEventType::Read)
        } else if tag == RECORD_SAMPLE {
            Some(SampledEventType::Sample)
        } else if tag == RECORD_MMAP2 {
            Some(SampledEventType::Mmap2)
        } else if tag == RECORD_AUX {
            Some(SampledEventType::Aux)
        } else if tag == RECORD_ITRACE_START {
            Some(SampledEventType::ItraceStart)
        } else if tag == RECORD_LOST_SAMPLES {
            Some(SampledEventType::LostSamples)
        } else if tag == RECORD_SWITCH {
            Some(SampledEventType::Switch)
        } else if tag == RECORD_SWITCH_CPU_WIDE {
            Some(SampledEventType::SwitchCpuWide)
        } else {
            None
        }
    }
}

/// The fixed header every ring-buffer record starts with.
#[derive(Clone, Copy, Debug, PartialEq, Eq, Structural)]
pub struct EventHeader {
    /// Which kind of record follows.
    pub event_type: SampledEventType,
    /// The decoded misc word.
    pub misc: Metadata,
    /// The total record length in bytes, header included; it governs
    /// how many subsequent bytes belong to this record.
    pub size: u16,
}

/// The width of the fixed record header in bytes.
pub const HEADER_BYTES: usize = 8;

impl EventHeader {
    /// The typed header assembled from the header struct's raw fields:
    /// the size copied verbatim, the type by exact numeric match, the
    /// misc word decoded bit by bit.
    pub open spec fn from_raw_spec(tag: u32, misc: u16, size: u16) -> Result<
        EventHeader,
        DecodeError,
    > {
        match SampledEventType::from_u32_spec(tag) {
            None => Err(DecodeError::UnrecognizedEventType(tag)),
            Some(event_type) => match Metadata::from_bits_spec(misc) {
                Err(e) => Err(e),
                Ok(m) => Ok(EventHeader { event_type, misc: m, size }),
            },
        }
    }

    /// Decodes the three raw header fields. Total over its inputs: an
    /// unrecognized tag or cpu mode is an error value, not a panic.
    pub fn from_raw(tag: u32, misc: u16, size: u16) -> (r: Result<EventHeader, DecodeError>)
        ensures
            r == EventHeader::from_raw_spec(tag, misc, size),
    {
        match SampledEventType::from_u32(tag) {
            None => Err(DecodeError::UnrecognizedEventType(tag)),
            Some(event_type) => match Metadata::from_bits(misc) {
                Err(e) => Err(e),
                Ok(m) => Ok(EventHeader { event_type, misc: m, size }),
            },
        }
    }

    /// The header encoded at the start of `b`: tag at offset 0, misc
    /// word at 4, total size at 6, all little-endian.
    pub open spec fn parse_spec(b: Seq<u8>) -> Result<EventHeader, DecodeError> {
        EventHeader::from_raw_spec(
            le_u32(b, 0) as u32,
            le_u16(b, 4) as u16,
            le_u16(b, 6) as u16,
        )
    }

    /// Decodes the fixed header at the start of `buf`.
    pub fn parse(buf: &Vec<u8>) -> (r: Result<EventHeader, DecodeError>)
        requires
            buf@.len() >= HEADER_BYTES,
        ensures
            r == EventHeader::parse_spec(buf@),
    {
        let tag = read_u32(buf, 0);
        let misc = read_u16(buf, 4);
        let size = read_u16(buf, 6);
        EventHeader::from_raw(tag, misc, size)
    }
}

/// The payload of one decoded record: one variant per record kind,
/// carrying exactly the fields the kernel defines for that kind.
#[derive(Clone, Debug, PartialEq, Eq)]
pub enum RecordContents {
    /// An executable mapping, for correlating user-space instruction
    /// pointers to code.
    Mmap { pid: u32, tid: u32, addr: u64, len: u64, pgoff: u64, filename: Vec<u8> },
    /// Events were lost.
    Lost { id: u64, lost: u64 },
    /// A process changed its name.
    Comm { pid: u32, tid: u32, comm: Vec<u8> },
    /// A process exited.
    Exit { pid: u32, ppid: u32, tid: u32, ptid: u32, time: u64 },
    /// Sampling was throttled or unthrottled.
    ThrottleUnthrottle { time: u64, id: u64, stream_id: u64 },
    /// A process forked.
    Fork { pid: u32, ppid: u32, tid: u32, ptid: u32, time: u64 },
    /// A read event, carrying the counter value in the configured read
    /// format.
    Read { pid: u32, tid: u32, value: ReadValue },
    /// One sample.
    Sample(SampleRecord),
    /// A mapping with the identity information that distinguishes
    /// shared mappings.
    Mmap2 {
        pid: u32,
        tid: u32,
        addr: u64,
        len: u64,
        pgoff: u64,
        maj: u32,
        min: u32,
        ino: u64,
        ino_generation: u64,
        prot: u32,
        flags: u32,
        filename: Vec<u8>,
    },
    /// New data in the auxiliary buffer area.
    Aux { aux_offset: u64, aux_size: u64, flags: u64 },
    /// A process started an instruction trace.
    ItraceStart { pid: u32, tid: u32 },
    /// Samples may have been lost.
    LostSamples { lost: u64 },
    /// A context switch; the misc word says in which direction.
    Switch,
    /// A context switch observed CPU-wide, with the other process and
    /// thread involved.
    SwitchCpuWide { next_prev_pid: u32, next_prev_tid: u32 },
}

/// The ghost image of `RecordContents`.
pub enum SpecRecordContents {
    Mmap { pid: u32, tid: u32, addr: u64, len: u64, pgoff: u64, filename: Seq<u8> },
    Lost { id: u64, lost: u64 },
    Comm { pid: u32, tid: u32, comm: Seq<u8> },
    Exit { pid: u32, ppid: u32, tid: u32, ptid: u32, time: u64 },
    ThrottleUnthrottle { time: u64, id: u64, stream_id: u64 },
    Fork { pid: u32, ppid: u32, tid: u32, ptid: u32, time: u64 },
    Read { pid: u32, tid: u32, value: ReadValue },
    Sample(SpecSample),
    Mmap2 {
        pid: u32,
        tid: u32,
        addr: u64,
        len: u64,
        pgoff: u64,
        maj: u32,
        min: u32,
        ino: u64,
        ino_generation: u64,
        prot: u32,
        flags: u32,
        filename: Seq<u8>,
    },
    Aux { aux_offset: u64, aux_size: u64, flags: u64 },
    ItraceStart { pid: u32, tid: u32 },
    LostSamples { lost: u64 },
    Switch,
    SwitchCpuWide { next_prev_pid: u32, next_prev_tid: u32 },
}

impl View for RecordContents {
    type V = SpecRecordContents;

    open spec fn view(&self) -> SpecRecordContents {
        match self {
            RecordContents::Mmap { pid, tid, addr, len, pgoff, filename } => SpecRecordContents::Mmap {
                pid: *pid,
                tid: *tid,
                addr: *addr,
                len: *len,
                pgoff: *pgoff,
                filename: filename@,
            },
            RecordContents::Lost { id, lost } => SpecRecordContents::Lost { id: *id, lost: *lost },
            RecordContents::Comm { pid, tid, comm } => SpecRecordContents::Comm {
                pid: *pid,
                tid: *tid,
                comm: comm@,
            },
            RecordContents::Exit { pid, ppid, tid, ptid, time } => SpecRecordContents::Exit {
                pid: *pid,
                ppid: *ppid,
                tid: *tid,
                ptid: *ptid,
                time: *time,
            },
            RecordContents::ThrottleUnthrottle { time, id, stream_id } => SpecRecordContents::ThrottleUnthrottle {
                time: *time,
                id: *id,
                stream_id: *stream_id,
            },
            RecordContents::Fork { pid, ppid, tid, ptid, time } => SpecRecordContents::Fork {
                pid: *pid,
                ppid: *ppid,
                tid: *tid,
                ptid: *ptid,
                time: *time,
            },
            RecordContents::Read { pid, tid, value } => SpecRecordContents::Read {
                pid: *pid,
                tid: *tid,
                value: *value,
            },
            RecordContents::Sample(s) => SpecRecordContents::Sample(s@),
            RecordContents::Mmap2 {
                pid,
                tid,
                addr,
                len,
                pgoff,
                maj,
                min,
                ino,
                ino_generation,
                prot,
                flags,
                filename,
            } => SpecRecordContents::Mmap2 {
                pid: *pid,
                tid: *tid,
                addr: *addr,
                len: *len,
                pgoff: *pgoff,
                maj: *maj,
                min: *min,
                ino: *ino,
                ino_generation: *ino_generation,
                prot: *prot,
                flags: *flags,
                filename: filename@,
            },
            RecordContents::Aux { aux_offset, aux_size, flags } => SpecRecordContents::Aux {
                aux_offset: *aux_offset,
                aux_size: *aux_size,
                flags: *flags,
            },
            RecordContents::ItraceStart { pid, tid } => SpecRecordContents::ItraceStart {
                pid: *pid,
                tid: *tid,
            },
            RecordContents::LostSamples { lost } => SpecRecordContents::LostSamples { lost: *lost },
            RecordContents::Switch => SpecRecordContents::Switch,
            RecordContents::SwitchCpuWide { next_prev_pid, next_prev_tid } => SpecRecordContents::SwitchCpuWide {
                next_prev_pid: *next_prev_pid,
                next_prev_tid: *next_prev_tid,
            },
        }
    }
}

/// One decoded ring-buffer record.
#[derive(Clone, Debug, PartialEq, Eq)]
pub struct Record {
    /// The decoded misc word of the record's header.
    pub metadata: Metadata,
    /// The typed payload.
    pub contents: RecordContents,
}

/// The ghost image of a `Record`.
pub struct SpecRecord {
    pub metadata: Metadata,
    pub contents: SpecRecordContents,
}

impl View for Record {
    type V = SpecRecord;

    open spec fn view(&self) -> SpecRecord {
        SpecRecord { metadata: self.metadata, contents: self.contents@ }
    }
}

// Specified payload decoding, one function per record kind, each over
// the bytes that follow the record's header. A record may carry more
// bytes than the kind's fields (an optional trailing identifier
// block); the declared size bounds them and they are left
// uninterpreted.

pub open spec fn sp_mmap(p: Seq<u8>) -> Result<SpecRecordContents, DecodeError> {
    if p.len() < 32 {
        Err(DecodeError::TruncatedPayload)
    } else {
        Ok(
            SpecRecordContents::Mmap {
                pid: le_u32(p, 0) as u32,
                tid: le_u32(p, 4) as u32,
                addr: le_u64(p, 8) as u64,
                len: le_u64(p, 16) as u64,
                pgoff: le_u64(p, 24) as u64,
                filename: cstr(p.skip(32)),
            },
        )
    }
}

pub open spec fn sp_lost(p: Seq<u8>) -> Result<SpecRecordContents, DecodeError> {
    if p.len() < 16 {
        Err(DecodeError::TruncatedPayload)
    } else {
        Ok(SpecRecordContents::Lost { id: le_u64(p, 0) as u64, lost: le_u64(p, 8) as u64 })
    }
}

pub open spec fn sp_comm(p: Seq<u8>) -> Result<SpecRecordContents, DecodeError> {
    if p.len() < 8 {
        Err(DecodeError::TruncatedPayload)
    } else {
        Ok(
            SpecRecordContents::Comm {
                pid: le_u32(p, 0) as u32,
                tid: le_u32(p, 4) as u32,
                comm: cstr(p.skip(8)),
            },
        )
    }
}

pub open spec fn sp_exit(p: Seq<u8>) -> Result<SpecRecordContents, DecodeError> {
    if p.len() < 24 {
        Err(DecodeError::TruncatedPayload)
    } else {
        Ok(
            SpecRecordContents::Exit {
                pid: le_u32(p, 0) as u32,
                ppid: le_u32(p, 4) as u32,
                tid: le_u32(p, 8) as u32,
                ptid: le_u32(p, 12) as u32,
                time: le_u64(p, 16) as u64,
            },
        )
    }
}

pub open spec fn sp_throttle(p: Seq<u8>) -> Result<SpecRecordContents, DecodeError> {
    if p.len() < 24 {
        Err(DecodeError::TruncatedPayload)
    } else {
        Ok(
            SpecRecordContents::ThrottleUnthrottle {
                time: le_u64(p, 0) as u64,
                id: le_u64(p, 8) as u64,
                stream_id: le_u64(p, 16) as u64,
            },
        )
    }
}

pub open spec fn sp_fork(p: Seq<u8>) -> Result<SpecRecordContents, DecodeError> {
    if p.len() < 24 {
        Err(DecodeError::TruncatedPayload)
    } else {
        Ok(
            SpecRecordContents::Fork {
                pid: le_u32(p, 0) as u32,
                ppid: le_u32(p, 4) as u32,
                tid: le_u32(p, 8) as u32,
                ptid: le_u32(p, 12) as u32,
                time: le_u64(p, 16) as u64,
            },
        )
    }
}

pub open spec fn sp_read_rec(fmt: u64, p: Seq<u8>) -> Result<SpecRecordContents, DecodeError> {
    if p.len() < 8 {
        Err(DecodeError::TruncatedPayload)
    } else {
        match step_read(p, fmt, true, Ok(8)) {
            Err(e) => Err(e),
            Ok(_) => match value_read(p, fmt, true, Ok(8)) {
                Some(v) => Ok(
                    SpecRecordContents::Read {
                        pid: le_u32(p, 0) as u32,
                        tid: le_u32(p, 4) as u32,
                        value: v,
                    },
                ),
                None => Err(DecodeError::TruncatedPayload),
            },
        }
    }
}

pub open spec fn sp_mmap2(p: Seq<u8>) -> Result<SpecRecordContents, DecodeError> {
    if p.len() < 64 {
        Err(DecodeError::TruncatedPayload)
    } else {
        Ok(
            SpecRecordContents::Mmap2 {
                pid: le_u32(p, 0) as u32,
                tid: le_u32(p, 4) as u32,
                addr: le_u64(p, 8) as u64,
                len: le_u64(p, 16) as u64,
                pgoff: le_u64(p, 24) as u64,
                maj: le_u32(p, 32) as u32,
                min: le_u32(p, 36) as u32,
                ino: le_u64(p, 40) as u64,
                ino_generation: le_u64(p, 48) as u64,
                prot: le_u32(p, 56) as u32,
                flags: le_u32(p, 60) as u32,
                filename: cstr(p.skip(64)),
            },
        )
    }
}

pub open spec fn sp_aux(p: Seq<u8>) -> Result<SpecRecordContents, DecodeError> {
    if p.len() < 24 {
        Err(DecodeError::TruncatedPayload)
    } else {
        Ok(
            SpecRecordContents::Aux {
                aux_offset: le_u64(p, 0) as u64,
                aux_size: le_u64(p, 8) as u64,
                flags: le_u64(p, 16) as u64,
            },
        )
    }
}

pub open spec fn sp_itrace_start(p: Seq<u8>) -> Result<SpecRecordContents, DecodeError> {
    if p.len() < 8 {
        Err(DecodeError::TruncatedPayload)
    } else {
        Ok(SpecRecordContents::ItraceStart { pid: le_u32(p, 0) as u32, tid: le_u32(p, 4) as u32 })
    }
}

pub open spec fn sp_lost_samples(p: Seq<u8>) -> Result<SpecRecordContents, DecodeError> {
    if p.len() < 8 {
        Err(DecodeError::TruncatedPayload)
    } else {
        Ok(SpecRecordContents::LostSamples { lost: le_u64(p, 0) as u64 })
    }
}

pub open spec fn sp_switch_cpu_wide(p: Seq<u8>) -> Result<SpecRecordContents, DecodeError> {
    if p.len() < 8 {
        Err(DecodeError::TruncatedPayload)
    } else {
        Ok(
            SpecRecordContents::SwitchCpuWide {
                next_prev_pid: le_u32(p, 0) as u32,
                next_prev_tid: le_u32(p, 4) as u32,
            },
        )
    }
}

/// The payload of a record of kind `et`, decoded from the bytes after
/// its header under configuration `cfg`.
pub open spec fn sp_contents(cfg: SampleConfig, et: SampledEventType, p: Seq<u8>) -> Result<
    SpecRecordContents,
    DecodeError,
> {
    match et {
        SampledEventType::Mmap => sp_mmap(p),
        SampledEventType::Lost => sp_lost(p),
        SampledEventType::Comm => sp_comm(p),
        SampledEventType::Exit => sp_exit(p),
        SampledEventType::ThrottleUnthrottle => sp_throttle(p),
        SampledEventType::Fork => sp_fork(p),
        SampledEventType::Read => sp_read_rec(cfg.read_format, p),
        SampledEventType::Sample => match sp_sample(cfg, p) {
            Ok(s) => Ok(SpecRecordContents::Sample(s)),
            Err(e) => Err(e),
        },
        SampledEventType::Mmap2 => sp_mmap2(p),
        SampledEventType::Aux => sp_aux(p),
        SampledEventType::ItraceStart => sp_itrace_start(p),
        SampledEventType::LostSamples => sp_lost_samples(p),
        SampledEventType::Switch => Ok(SpecRecordContents::Switch),
        SampledEventType::SwitchCpuWide => sp_switch_cpu_wide(p),
    }
}

fn parse_mmap(p: &Vec<u8>) -> (r: Result<RecordContents, DecodeError>)
    ensures
        models(r, sp_mmap(p@)),
{
    let n = p.len();
    if n < 32 {
        return Err(DecodeError::TruncatedPayload);
    }
    let filename = read_cstr(p, 32, n);
    proof {
        assert(p@.subrange(32, n as int) =~= p@.skip(32));
    }
    Ok(
        RecordContents::Mmap {
            pid: read_u32(p, 0),
            tid: read_u32(p, 4),
            addr: read_u64(p, 8),
            len: read_u64(p, 16),
            pgoff: read_u64(p, 24),
            filename,
        },
    )
}

fn parse_lost(p: &Vec<u8>) -> (r: Result<RecordContents, DecodeError>)
    ensures
        models(r, sp_lost(p@)),
{
    if p.len() < 16 {
        return Err(DecodeError::TruncatedPayload);
    }
    Ok(RecordContents::Lost { id: read_u64(p, 0), lost: read_u64(p, 8) })
}

fn parse_comm(p: &Vec<u8>) -> (r: Result<RecordContents, DecodeError>)
    ensures
        models(r, sp_comm(p@)),
{
    let n = p.len();
    if n < 8 {
        return Err(DecodeError::TruncatedPayload);
    }
    let comm = read_cstr(p, 8, n);
    proof {
        assert(p@.subrange(8, n as int) =~= p@.skip(8));
    }
    Ok(RecordContents::Comm { pid: read_u32(p, 0), tid: read_u32(p, 4), comm })
}

fn parse_exit(p: &Vec<u8>) -> (r: Result<RecordContents, DecodeError>)
    ensures
        models(r, sp_exit(p@)),
{
    if p.len() < 24 {
        return Err(DecodeError::TruncatedPayload);
    }
    Ok(
        RecordContents::Exit {
            pid: read_u32(p, 0),
            ppid: read_u32(p, 4),
            tid: read_u32(p, 8),
            ptid: read_u32(p, 12),
            time: read_u64(p, 16),
        },
    )
}

fn parse_throttle(p: &Vec<u8>) -> (r: Result<RecordContents, DecodeError>)
    ensures
        models(r, sp_throttle(p@)),
{
    if p.len() < 24 {
        return Err(DecodeError::TruncatedPayload);
    }
    Ok(
        RecordContents::ThrottleUnthrottle {
            time: read_u64(p, 0),
            id: read_u64(p, 8),
            stream_id: read_u64(p, 16),
        },
    )
}

fn parse_fork(p: &Vec<u8>) -> (r: Result<RecordContents, DecodeError>)
    ensures
        models(r, sp_fork(p@)),
{
    if p.len() < 24 {
        return Err(DecodeError::TruncatedPayload);
    }
    Ok(
        RecordContents::Fork {
            pid: read_u32(p, 0),
            ppid: read_u32(p, 4),
            tid: read_u32(p, 8),
            ptid: read_u32(p, 12),
            time: read_u64(p, 16),
        },
    )
}

fn parse_read_rec(fmt: u64, p: &Vec<u8>) -> (r: Result<RecordContents, DecodeError>)
    ensures
        models(r, sp_read_rec(fmt, p@)),
{
    if p.len() < 8 {
        return Err(DecodeError::TruncatedPayload);
    }
    let pid = read_u32(p, 0);
    let tid = read_u32(p, 4);
    match take_read(p, fmt, true, 8) {
        Ok(x) => match x.0 {
            Some(value) => Ok(RecordContents::Read { pid, tid, value }),
            None => Err(DecodeError::TruncatedPayload),
        },
        Err(e) => Err(e),
    }
}

fn parse_mmap2(p: &Vec<u8>) -> (r: Result<RecordContents, DecodeError>)
    ensures
        models(r, sp_mmap2(p@)),
{
    let n = p.len();
    if n < 64 {
        return Err(DecodeError::TruncatedPayload);
    }
    let filename = read_cstr(p, 64, n);
    proof {
        assert(p@.subrange(64, n as int) =~= p@.skip(64));
    }
    Ok(
        RecordContents::Mmap2 {
            pid: read_u32(p, 0),
            tid: read_u32(p, 4),
            addr: read_u64(p, 8),
            len: read_u64(p, 16),
            pgoff: read_u64(p, 24),
            maj: read_u32(p, 32),
            min: read_u32(p, 36),
            ino: read_u64(p, 40),
            ino_generation: read_u64(p, 48),
            prot: read_u32(p, 56),
            flags: read_u32(p, 60),
            filename,
        },
    )
}

fn parse_aux(p: &Vec<u8>) -> (r: Result<RecordContents, DecodeError>)
    ensures
        models(r, sp_aux(p@)),
{
    if p.len() < 24 {
        return Err(DecodeError::TruncatedPayload);
    }
    Ok(
        RecordContents::Aux {
            aux_offset: read_u64(p, 0),
            aux_size: read_u64(p, 8),
            flags: read_u64(p, 16),
        },
    )
}

fn parse_itrace_start(p: &Vec<u8>) -> (r: Result<RecordContents, DecodeError>)
    ensures
        models(r, sp_itrace_start(p@)),
{
    if p.len() < 8 {
        return Err(DecodeError::TruncatedPayload);
    }
    Ok(RecordContents::ItraceStart { pid: read_u32(p, 0), tid: read_u32(p, 4) })
}

fn parse_lost_samples(p: &Vec<u8>) -> (r: Result<RecordContents, DecodeError>)
    ensures
        models(r, sp_lost_samples(p@)),
{
    if p.len() < 8 {
        return Err(DecodeError::TruncatedPayload);
    }
    Ok(RecordContents::LostSamples { lost: read_u64(p, 0) })
}

fn parse_switch_cpu_wide(p: &Vec<u8>) -> (r: Result<RecordContents, DecodeError>)
    ensures
        models(r, sp_switch_cpu_wide(p@)),
{
    if p.len() < 8 {
        return Err(DecodeError::TruncatedPayload);
    }
    Ok(RecordContents::SwitchCpuWide { next_prev_pid: read_u32(p, 0), next_prev_tid: read_u32(p, 4) })
}

/// Decodes the payload of a record of kind `et` under configuration
/// `cfg`.
fn parse_contents(cfg: SampleConfig, et: SampledEventType, p: &Vec<u8>) -> (r: Result<
    RecordContents,
    DecodeError,
>)
    ensures
        models(r, sp_contents(cfg, et, p@)),
{
    match et {
        SampledEventType::Mmap => parse_mmap(p),
        SampledEventType::Lost => parse_lost(p),
        SampledEventType::Comm => parse_comm(p),
        SampledEventType::Exit => parse_exit(p),
        SampledEventType::ThrottleUnthrottle => parse_throttle(p),
        SampledEventType::Fork => parse_fork(p),
        SampledEventType::Read => parse_read_rec(cfg.read_format, p),
        SampledEventType::Sample => match parse_sample(cfg, p) {
            Ok(s) => Ok(RecordContents::Sample(s)),
            Err(e) => Err(e),
        },
        SampledEventType::Mmap2 => parse_mmap2(p),
        SampledEventType::Aux => parse_aux(p),
        SampledEventType::ItraceStart => parse_itrace_start(p),
        SampledEventType::LostSamples => parse_lost_samples(p),
        SampledEventType::Switch => Ok(RecordContents::Switch),
        SampledEventType::SwitchCpuWide => parse_switch_cpu_wide(p),
    }
}

/// The outcome of one decode step on a buffered byte stream.
#[derive(Clone, Debug, PartialEq, Eq)]
pub enum DecodeStep {
    /// Too few bytes are buffered for one whole record; nothing was
    /// consumed, and the same call may be retried once more bytes have
    /// been appended.
    Incomplete,
    /// One record was decoded, consuming exactly `consumed` bytes.
    Item { record: Record, consumed: usize },
    /// The leading record is malformed; `consumed` bytes may be skipped
    /// to resynchronize at the next record boundary, except that a
    /// nonsensical declared size leaves nothing to skip and `consumed`
    /// is zero.
    Failed { error: DecodeError, consumed: usize },
}

/// The ghost image of a `DecodeStep`.
pub enum SpecDecodeStep {
    Incomplete,
    Item { record: SpecRecord, consumed: int },
    Failed { error: DecodeError, consumed: int },
}

impl View for DecodeStep {
    type V = SpecDecodeStep;

    open spec fn view(&self) -> SpecDecodeStep {
        match self {
            DecodeStep::Incomplete => SpecDecodeStep::Incomplete,
            DecodeStep::Item { record, consumed } => SpecDecodeStep::Item {
                record: record@,
                consumed: *consumed as int,
            },
            DecodeStep::Failed { error, consumed } => SpecDecodeStep::Failed {
                error: *error,
                consumed: *consumed as int,
            },
        }
    }
}

/// One decode step on the buffered bytes `b` under configuration
/// `cfg`. With fewer than the header's bytes, or fewer than the
/// declared record size, the step is incomplete and consumes nothing;
/// with enough bytes it consumes exactly the declared size, yielding
/// the record or the reason its bytes are malformed.
pub open spec fn spec_decode(cfg: SampleConfig, b: Seq<u8>) -> SpecDecodeStep {
    if b.len() < 8 {
        SpecDecodeStep::Incomplete
    } else {
        let size = le_u16(b, 6);
        if size < 8 {
            SpecDecodeStep::Failed {
                error: DecodeError::BadDeclaredSize(size as u16),
                consumed: 0,
            }
        } else if b.len() < size {
            SpecDecodeStep::Incomplete
        } else {
            match EventHeader::parse_spec(b) {
                Err(e) => SpecDecodeStep::Failed { error: e, consumed: size },
                Ok(h) => match sp_contents(cfg, h.event_type, b.subrange(8, size)) {
                    Err(e) => SpecDecodeStep::Failed { error: e, consumed: size },
                    Ok(c) => SpecDecodeStep::Item {
                        record: SpecRecord { metadata: h.misc, contents: c },
                        consumed: size,
                    },
                },
            }
        }
    }
}

/// Decodes the kernel's ring-buffer byte stream one record at a time,
/// carrying the sampling configuration that was fixed when the
/// originating counter was opened.
pub struct RecordDecoder {
    /// The sampling configuration governing sample-record layouts.
    pub config: SampleConfig,
}

impl RecordDecoder {
    /// A decoder for streams produced under the given configuration.
    pub fn new(config: SampleConfig) -> (d: RecordDecoder)
        ensures
            d.config == config,
    {
        RecordDecoder { config }
    }

    /// Performs one decode step on the buffered bytes. The step never
    /// consumes a partial record: either nothing (more bytes are
    /// needed) or exactly the declared size of the leading record,
    /// decoded or rejected as malformed. Feeding the same buffer again
    /// after appending bytes continues from the same position.
    #[verifier::rlimit(100)]
    pub fn decode(&self, src: &Vec<u8>) -> (r: DecodeStep)
        ensures
            r@ == spec_decode(self.config, src@),
    {
        if src.len() < HEADER_BYTES {
            return DecodeStep::Incomplete;
        }
        let size16 = read_u16(src, 6);
        let size = size16 as usize;
        if size < HEADER_BYTES {
            return DecodeStep::Failed { error: DecodeError::BadDeclaredSize(size16), consumed: 0 };
        }
        if src.len() < size {
            return DecodeStep::Incomplete;
        }
        match EventHeader::parse(src) {
            Err(e) => DecodeStep::Failed { error: e, consumed: size },
            Ok(h) => {
                let payload = subvec(src, HEADER_BYTES, size);
                match parse_contents(self.config, h.event_type, &payload) {
                    Err(e) => DecodeStep::Failed { error: e, consumed: size },
                    Ok(c) => DecodeStep::Item {
                        record: Record { metadata: h.misc, contents: c },
                        consumed: size,
                    },
                }
            },
        }
    }
}

/// Decoding is re-entrant: a step that has an outcome — a record, a
/// malformed record, a nonsensical size — keeps exactly that outcome
/// however many bytes are appended to the buffer, because the step
/// reads nothing past the record's declared size. Only an incomplete
/// step can change once more bytes arrive. Hence feeding a stream byte
/// by byte yields the same records as feeding it at once.
pub proof fn lemma_decode_prefix_stable(cfg: SampleConfig, b: Seq<u8>, ext: Seq<u8>)
    requires
        !(spec_decode(cfg, b) is Incomplete),
    ensures
        spec_decode(cfg, b + ext) == spec_decode(cfg, b),
{
    let w = b + ext;
    assert(b.len() >= 8);
    assert(forall|i: int| 0 <= i < b.len() ==> w[i] == b[i]);
    assert(le_u32(w, 0) == le_u32(b, 0));
    assert(le_u16(w, 4) == le_u16(b, 4));
    assert(le_u16(w, 6) == le_u16(b, 6));
    let size = le_u16(b, 6);
    if size >= 8 {
        assert(b.len() >= size);
        assert(w.subrange(8, size) =~= b.subrange(8, size));
    }
}

/// A record whose declared size exceeds the buffered bytes decodes to
/// "incomplete": no partial record, no consumption.
pub proof fn lemma_short_buffer_incomplete(cfg: SampleConfig, b: Seq<u8>)
    requires
        b.len() >= 8,
        8 <= le_u16(b, 6),
        b.len() < le_u16(b, 6),
    ensures
        spec_decode(cfg, b) is Incomplete,
{
}

/// A record header with an unrecognized type tag decodes to an error
/// value that consumes the declared record, never to a process abort.
pub proof fn lemma_unknown_tag_rejected(cfg: SampleConfig, b: Seq<u8>)
    requires
        b.len() >= 8,
        8 <= le_u16(b, 6) <= b.len(),
        SampledEventType::from_u32_spec(le_u32(b, 0) as u32) is None,
    ensures
        spec_decode(cfg, b) == (SpecDecodeStep::Failed {
            error: DecodeError::UnrecognizedEventType(le_u32(b, 0) as u32),
            consumed: le_u16(b, 6),
        }),
{
}


} // verus!
