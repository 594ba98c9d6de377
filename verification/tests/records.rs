use perf_events::error::DecodeError;
use perf_events::sample::payload::BranchEntry;
use perf_events::sample::payload::RegsDump;
use perf_events::sample::payload::SampleConfig;
use perf_events::sample::payload::StackDump;
use perf_events::sample::record::CpuMode;
use perf_events::sample::record::DecodeStep;
use perf_events::sample::record::EventHeader;
use perf_events::sample::record::Record;
use perf_events::sample::record::RecordContents;
use perf_events::sample::record::RecordDecoder;
use perf_events::sample::record::SampledEventType;

fn plain_config() -> SampleConfig {
    SampleConfig { sample_type: 0, read_format: 0, regs_user: 0, regs_intr: 0 }
}

fn header_bytes(tag: u32, misc: u16, size: u16) -> Vec<u8> {
    let mut v = Vec::new();
    v.extend_from_slice(&tag.to_le_bytes());
    v.extend_from_slice(&misc.to_le_bytes());
    v.extend_from_slice(&size.to_le_bytes());
    v
}

fn push_u32(v: &mut Vec<u8>, x: u32) {
    v.extend_from_slice(&x.to_le_bytes());
}

fn push_u64(v: &mut Vec<u8>, x: u64) {
    v.extend_from_slice(&x.to_le_bytes());
}

#[test]
fn header_round_trip_exit() {
    // a synthetic header: event type Exit, misc User with the flags
    // cleared, total size forty bytes
    let buf = header_bytes(4, 2, 40);
    let h = EventHeader::parse(&buf).unwrap();
    assert_eq!(h.event_type, SampledEventType::Exit);
    assert_eq!(h.size, 40);
    assert_eq!(h.misc.cpu_mode, CpuMode::User);
    assert!(!h.misc.multipurpose);
    assert!(!h.misc.exact_ip);
    assert!(!h.misc.ext_reserved);
}

#[test]
fn header_misc_flags() {
    let buf = header_bytes(3, 1 | 0x2000 | 0x4000, 16);
    let h = EventHeader::parse(&buf).unwrap();
    assert_eq!(h.event_type, SampledEventType::Comm);
    assert_eq!(h.misc.cpu_mode, CpuMode::Kernel);
    assert!(h.misc.multipurpose);
    assert!(h.misc.exact_ip);
    assert!(!h.misc.ext_reserved);
}

#[test]
fn unknown_type_tag_is_error() {
    // an unrecognized type tag decodes to an error value, not an abort
    let buf = header_bytes(999, 2, 8);
    let decoder = RecordDecoder::new(plain_config());
    match decoder.decode(&buf) {
        DecodeStep::Failed { error, consumed } => {
            assert_eq!(error, DecodeError::UnrecognizedEventType(999));
            assert_eq!(consumed, 8);
        }
        other => panic!("expected a decode failure, got {:?}", other),
    }
}

#[test]
fn unknown_cpu_mode_is_error() {
    let buf = header_bytes(4, 6, 8);
    let decoder = RecordDecoder::new(plain_config());
    match decoder.decode(&buf) {
        DecodeStep::Failed { error, .. } => {
            assert_eq!(error, DecodeError::UnrecognizedCpuMode(6));
        }
        other => panic!("expected a decode failure, got {:?}", other),
    }
}

#[test]
fn declared_size_below_header_is_error() {
    let buf = header_bytes(4, 2, 4);
    let decoder = RecordDecoder::new(plain_config());
    match decoder.decode(&buf) {
        DecodeStep::Failed { error, consumed } => {
            assert_eq!(error, DecodeError::BadDeclaredSize(4));
            assert_eq!(consumed, 0);
        }
        other => panic!("expected a decode failure, got {:?}", other),
    }
}

#[test]
fn short_buffer_is_incomplete() {
    // a declared size larger than the buffered bytes yields
    // "incomplete", never a partial record
    let decoder = RecordDecoder::new(plain_config());
    assert_eq!(decoder.decode(&Vec::new()), DecodeStep::Incomplete);
    assert_eq!(decoder.decode(&vec![4, 0, 0]), DecodeStep::Incomplete);
    let mut buf = header_bytes(4, 2, 32);
    push_u32(&mut buf, 7);
    assert_eq!(decoder.decode(&buf), DecodeStep::Incomplete);
}

fn exit_record(misc: u16, pid: u32, ppid: u32, tid: u32, ptid: u32, time: u64) -> Vec<u8> {
    let mut buf = header_bytes(4, misc, 32);
    push_u32(&mut buf, pid);
    push_u32(&mut buf, ppid);
    push_u32(&mut buf, tid);
    push_u32(&mut buf, ptid);
    push_u64(&mut buf, time);
    buf
}

#[test]
fn decode_exit_record() {
    let buf = exit_record(2, 10, 9, 11, 12, 777);
    let decoder = RecordDecoder::new(plain_config());
    match decoder.decode(&buf) {
        DecodeStep::Item { record, consumed } => {
            assert_eq!(consumed, 32);
            assert_eq!(record.metadata.cpu_mode, CpuMode::User);
            assert_eq!(
                record.contents,
                RecordContents::Exit { pid: 10, ppid: 9, tid: 11, ptid: 12, time: 777 }
            );
        }
        other => panic!("expected a record, got {:?}", other),
    }
}

#[test]
fn decode_mmap_record_with_filename() {
    let mut buf = header_bytes(1, 2, 0);
    push_u32(&mut buf, 100);
    push_u32(&mut buf, 101);
    push_u64(&mut buf, 0x7f00_0000);
    push_u64(&mut buf, 4096);
    push_u64(&mut buf, 0);
    buf.extend_from_slice(b"/bin/true\0\0\0\0\0\0\0");
    let size = buf.len() as u16;
    buf[6] = size as u8;
    buf[7] = (size >> 8) as u8;
    let decoder = RecordDecoder::new(plain_config());
    match decoder.decode(&buf) {
        DecodeStep::Item { record, consumed } => {
            assert_eq!(consumed, buf.len());
            match record.contents {
                RecordContents::Mmap { pid, tid, addr, len, pgoff, filename } => {
                    assert_eq!(pid, 100);
                    assert_eq!(tid, 101);
                    assert_eq!(addr, 0x7f00_0000);
                    assert_eq!(len, 4096);
                    assert_eq!(pgoff, 0);
                    assert_eq!(filename, b"/bin/true".to_vec());
                }
                other => panic!("expected an mmap record, got {:?}", other),
            }
        }
        other => panic!("expected a record, got {:?}", other),
    }
}

#[test]
fn decode_lost_and_fork_records() {
    let decoder = RecordDecoder::new(plain_config());

    let mut buf = header_bytes(2, 2, 24);
    push_u64(&mut buf, 5);
    push_u64(&mut buf, 1000);
    match decoder.decode(&buf) {
        DecodeStep::Item { record, .. } => {
            assert_eq!(record.contents, RecordContents::Lost { id: 5, lost: 1000 });
        }
        other => panic!("expected a record, got {:?}", other),
    }

    let mut buf = header_bytes(7, 2, 32);
    push_u32(&mut buf, 1);
    push_u32(&mut buf, 2);
    push_u32(&mut buf, 3);
    push_u32(&mut buf, 4);
    push_u64(&mut buf, 5);
    match decoder.decode(&buf) {
        DecodeStep::Item { record, .. } => {
            assert_eq!(
                record.contents,
                RecordContents::Fork { pid: 1, ppid: 2, tid: 3, ptid: 4, time: 5 }
            );
        }
        other => panic!("expected a record, got {:?}", other),
    }
}

#[test]
fn decode_throttle_accepts_both_tags() {
    let decoder = RecordDecoder::new(plain_config());
    for tag in [5u32, 6u32] {
        let mut buf = header_bytes(tag, 2, 32);
        push_u64(&mut buf, 11);
        push_u64(&mut buf, 22);
        push_u64(&mut buf, 33);
        match decoder.decode(&buf) {
            DecodeStep::Item { record, .. } => {
                assert_eq!(
                    record.contents,
                    RecordContents::ThrottleUnthrottle { time: 11, id: 22, stream_id: 33 }
                );
            }
            other => panic!("expected a record, got {:?}", other),
        }
    }
}

#[test]
fn decode_switch_records() {
    let decoder = RecordDecoder::new(plain_config());

    let buf = header_bytes(14, 2 | 0x2000, 8);
    match decoder.decode(&buf) {
        DecodeStep::Item { record, .. } => {
            assert_eq!(record.contents, RecordContents::Switch);
            assert!(record.metadata.multipurpose);
        }
        other => panic!("expected a record, got {:?}", other),
    }

    let mut buf = header_bytes(15, 2, 16);
    push_u32(&mut buf, 71);
    push_u32(&mut buf, 72);
    match decoder.decode(&buf) {
        DecodeStep::Item { record, .. } => {
            assert_eq!(
                record.contents,
                RecordContents::SwitchCpuWide { next_prev_pid: 71, next_prev_tid: 72 }
            );
        }
        other => panic!("expected a record, got {:?}", other),
    }
}

#[test]
fn decode_sample_with_scalars() {
    // ip, pid/tid and time enabled in the sampling configuration
    let config = SampleConfig { sample_type: 0x1 | 0x2 | 0x4, read_format: 0, regs_user: 0, regs_intr: 0 };
    let decoder = RecordDecoder::new(config);
    let mut buf = header_bytes(9, 2, 32);
    push_u64(&mut buf, 0xdead_beef);
    push_u32(&mut buf, 31);
    push_u32(&mut buf, 32);
    push_u64(&mut buf, 99);
    match decoder.decode(&buf) {
        DecodeStep::Item { record, consumed } => {
            assert_eq!(consumed, 32);
            match record.contents {
                RecordContents::Sample(s) => {
                    assert_eq!(s.ip, Some(0xdead_beef));
                    assert_eq!(s.pid_tid, Some((31, 32)));
                    assert_eq!(s.time, Some(99));
                    assert_eq!(s.addr, None);
                    assert_eq!(s.callchain, None);
                }
                other => panic!("expected a sample, got {:?}", other),
            }
        }
        other => panic!("expected a record, got {:?}", other),
    }
}

#[test]
fn decode_sample_with_callchain() {
    let config = SampleConfig { sample_type: 0x20, read_format: 0, regs_user: 0, regs_intr: 0 };
    let decoder = RecordDecoder::new(config);
    let mut buf = header_bytes(9, 2, 32);
    push_u64(&mut buf, 2);
    push_u64(&mut buf, 0x1000);
    push_u64(&mut buf, 0x2000);
    match decoder.decode(&buf) {
        DecodeStep::Item { record, .. } => match record.contents {
            RecordContents::Sample(s) => {
                assert_eq!(s.callchain, Some(vec![0x1000, 0x2000]));
            }
            other => panic!("expected a sample, got {:?}", other),
        },
        other => panic!("expected a record, got {:?}", other),
    }
}

#[test]
fn sample_callchain_count_checked_against_size() {
    // a count prefix implying more bytes than the record declares is
    // rejected, not read past the record boundary
    let config = SampleConfig { sample_type: 0x20, read_format: 0, regs_user: 0, regs_intr: 0 };
    let decoder = RecordDecoder::new(config);
    let mut buf = header_bytes(9, 2, 16);
    push_u64(&mut buf, 100);
    match decoder.decode(&buf) {
        DecodeStep::Failed { error, consumed } => {
            assert_eq!(error, DecodeError::CountTooLarge);
            assert_eq!(consumed, 16);
        }
        other => panic!("expected a decode failure, got {:?}", other),
    }
}

#[test]
fn sample_truncated_field_is_error() {
    let config = SampleConfig { sample_type: 0x1 | 0x4, read_format: 0, regs_user: 0, regs_intr: 0 };
    let decoder = RecordDecoder::new(config);
    // size only leaves room for the instruction pointer, not the time
    let mut buf = header_bytes(9, 2, 16);
    push_u64(&mut buf, 0x4000);
    match decoder.decode(&buf) {
        DecodeStep::Failed { error, .. } => {
            assert_eq!(error, DecodeError::TruncatedPayload);
        }
        other => panic!("expected a decode failure, got {:?}", other),
    }
}

#[test]
fn decode_read_record_with_times() {
    let config = SampleConfig { sample_type: 0, read_format: 0x1 | 0x2, regs_user: 0, regs_intr: 0 };
    let decoder = RecordDecoder::new(config);
    let mut buf = header_bytes(8, 2, 40);
    push_u32(&mut buf, 41);
    push_u32(&mut buf, 42);
    push_u64(&mut buf, 1234);
    push_u64(&mut buf, 555);
    push_u64(&mut buf, 444);
    match decoder.decode(&buf) {
        DecodeStep::Item { record, .. } => match record.contents {
            RecordContents::Read { pid, tid, value } => {
                assert_eq!(pid, 41);
                assert_eq!(tid, 42);
                assert_eq!(value.value, 1234);
                assert_eq!(value.time_enabled, Some(555));
                assert_eq!(value.time_running, Some(444));
                assert_eq!(value.id, None);
            }
            other => panic!("expected a read record, got {:?}", other),
        },
        other => panic!("expected a record, got {:?}", other),
    }
}

#[test]
fn group_read_format_unsupported() {
    let config = SampleConfig { sample_type: 0, read_format: 0x8, regs_user: 0, regs_intr: 0 };
    let decoder = RecordDecoder::new(config);
    let mut buf = header_bytes(8, 2, 24);
    push_u32(&mut buf, 41);
    push_u32(&mut buf, 42);
    push_u64(&mut buf, 1234);
    match decoder.decode(&buf) {
        DecodeStep::Failed { error, .. } => {
            assert_eq!(error, DecodeError::UnsupportedSampleFormat);
        }
        other => panic!("expected a decode failure, got {:?}", other),
    }
}

fn drain_front(buf: &mut Vec<u8>, n: usize) {
    let rest = buf.split_off(n);
    *buf = rest;
}

fn decode_stream(decoder: &RecordDecoder, bytes: &[u8], chunk: usize) -> Vec<Record> {
    let mut records = Vec::new();
    let mut buf: Vec<u8> = Vec::new();
    let mut fed = 0;
    while fed < bytes.len() || !buf.is_empty() {
        let step = decoder.decode(&buf);
        match step {
            DecodeStep::Incomplete => {
                if fed == bytes.len() {
                    break;
                }
                let take = chunk.min(bytes.len() - fed);
                buf.extend_from_slice(&bytes[fed..fed + take]);
                fed += take;
            }
            DecodeStep::Item { record, consumed } => {
                records.push(record);
                drain_front(&mut buf, consumed);
            }
            DecodeStep::Failed { error, .. } => panic!("unexpected failure: {:?}", error),
        }
    }
    records
}

#[test]
fn byte_at_a_time_matches_all_at_once() {
    // re-entrancy: feeding one byte at a time yields the same records
    // as feeding the whole stream at once
    let mut stream: Vec<u8> = Vec::new();
    stream.extend_from_slice(&exit_record(2, 10, 9, 11, 12, 777));
    let mut lost = header_bytes(2, 1, 24);
    push_u64(&mut lost, 5);
    push_u64(&mut lost, 17);
    stream.extend_from_slice(&lost);
    stream.extend_from_slice(&exit_record(1, 20, 19, 21, 22, 888));

    let decoder = RecordDecoder::new(plain_config());
    let one_by_one = decode_stream(&decoder, &stream, 1);
    let all_at_once = decode_stream(&decoder, &stream, stream.len());
    assert_eq!(one_by_one.len(), 3);
    assert_eq!(one_by_one, all_at_once);
}

#[test]
fn decode_comm_record() {
    let mut buf = header_bytes(3, 2, 24);
    push_u32(&mut buf, 61);
    push_u32(&mut buf, 62);
    buf.extend_from_slice(b"worker\0\0");
    let decoder = RecordDecoder::new(plain_config());
    match decoder.decode(&buf) {
        DecodeStep::Item { record, .. } => {
            assert_eq!(
                record.contents,
                RecordContents::Comm { pid: 61, tid: 62, comm: b"worker".to_vec() }
            );
        }
        other => panic!("expected a record, got {:?}", other),
    }
}

#[test]
fn decode_mmap2_record() {
    let mut buf = header_bytes(10, 2, 0);
    push_u32(&mut buf, 1);
    push_u32(&mut buf, 2);
    push_u64(&mut buf, 0x5000);
    push_u64(&mut buf, 0x1000);
    push_u64(&mut buf, 0x2000);
    push_u32(&mut buf, 8);
    push_u32(&mut buf, 1);
    push_u64(&mut buf, 99);
    push_u64(&mut buf, 7);
    push_u32(&mut buf, 5);
    push_u32(&mut buf, 2);
    buf.extend_from_slice(b"lib.so\0\0");
    let size = buf.len() as u16;
    buf[6] = size as u8;
    buf[7] = (size >> 8) as u8;
    let decoder = RecordDecoder::new(plain_config());
    match decoder.decode(&buf) {
        DecodeStep::Item { record, .. } => {
            assert_eq!(
                record.contents,
                RecordContents::Mmap2 {
                    pid: 1,
                    tid: 2,
                    addr: 0x5000,
                    len: 0x1000,
                    pgoff: 0x2000,
                    maj: 8,
                    min: 1,
                    ino: 99,
                    ino_generation: 7,
                    prot: 5,
                    flags: 2,
                    filename: b"lib.so".to_vec(),
                }
            );
        }
        other => panic!("expected a record, got {:?}", other),
    }
}

#[test]
fn decode_aux_itrace_and_lost_samples() {
    let decoder = RecordDecoder::new(plain_config());

    let mut buf = header_bytes(11, 2, 32);
    push_u64(&mut buf, 0x100);
    push_u64(&mut buf, 0x200);
    push_u64(&mut buf, 1);
    match decoder.decode(&buf) {
        DecodeStep::Item { record, .. } => {
            assert_eq!(
                record.contents,
                RecordContents::Aux { aux_offset: 0x100, aux_size: 0x200, flags: 1 }
            );
        }
        other => panic!("expected a record, got {:?}", other),
    }

    let mut buf = header_bytes(12, 2, 16);
    push_u32(&mut buf, 81);
    push_u32(&mut buf, 82);
    match decoder.decode(&buf) {
        DecodeStep::Item { record, .. } => {
            assert_eq!(record.contents, RecordContents::ItraceStart { pid: 81, tid: 82 });
        }
        other => panic!("expected a record, got {:?}", other),
    }

    let mut buf = header_bytes(13, 2, 16);
    push_u64(&mut buf, 3);
    match decoder.decode(&buf) {
        DecodeStep::Item { record, .. } => {
            assert_eq!(record.contents, RecordContents::LostSamples { lost: 3 });
        }
        other => panic!("expected a record, got {:?}", other),
    }
}

#[test]
fn decode_sample_with_variable_fields() {
    // identifier, raw blob, branch stack, user registers and user
    // stack enabled; the register mask has two set bits
    let config = SampleConfig {
        sample_type: 0x10000 | 0x400 | 0x800 | 0x1000 | 0x2000,
        read_format: 0,
        regs_user: 0b101,
        regs_intr: 0,
    };
    let decoder = RecordDecoder::new(config);
    let mut buf = header_bytes(9, 2, 0);
    push_u64(&mut buf, 42); // identifier
    push_u32(&mut buf, 3); // raw size
    buf.extend_from_slice(&[1, 2, 3, 0]); // raw data, padded to eight
    push_u64(&mut buf, 1); // branch entries
    push_u64(&mut buf, 0x10);
    push_u64(&mut buf, 0x20);
    push_u64(&mut buf, 0);
    push_u64(&mut buf, 1); // regs abi
    push_u64(&mut buf, 7);
    push_u64(&mut buf, 8);
    push_u64(&mut buf, 8); // stack size
    buf.extend_from_slice(&[9; 8]);
    push_u64(&mut buf, 4); // dyn size
    let size = buf.len() as u16;
    buf[6] = size as u8;
    buf[7] = (size >> 8) as u8;
    match decoder.decode(&buf) {
        DecodeStep::Item { record, consumed } => {
            assert_eq!(consumed, buf.len());
            match record.contents {
                RecordContents::Sample(s) => {
                    assert_eq!(s.identifier, Some(42));
                    assert_eq!(s.raw, Some(vec![1, 2, 3]));
                    assert_eq!(
                        s.branch_stack,
                        Some(vec![BranchEntry { from: 0x10, to: 0x20, flags: 0 }])
                    );
                    assert_eq!(s.regs_user, Some(RegsDump { abi: 1, regs: vec![7, 8] }));
                    assert_eq!(
                        s.stack_user,
                        Some(StackDump { data: vec![9; 8], dyn_size: 4 })
                    );
                    assert_eq!(s.ip, None);
                }
                other => panic!("expected a sample, got {:?}", other),
            }
        }
        other => panic!("expected a record, got {:?}", other),
    }
}

#[test]
fn decode_sample_regs_abi_none() {
    let config = SampleConfig { sample_type: 0x40000, read_format: 0, regs_user: 0, regs_intr: 0xff };
    let decoder = RecordDecoder::new(config);
    let mut buf = header_bytes(9, 2, 16);
    push_u64(&mut buf, 0); // abi none: no registers follow
    match decoder.decode(&buf) {
        DecodeStep::Item { record, .. } => match record.contents {
            RecordContents::Sample(s) => {
                assert_eq!(s.regs_intr, Some(RegsDump { abi: 0, regs: Vec::new() }));
            }
            other => panic!("expected a sample, got {:?}", other),
        },
        other => panic!("expected a record, got {:?}", other),
    }
}
