use mpeg2ts::crc::crc32;
use mpeg2ts::error::ErrorKind;
use mpeg2ts::es::{select_payloads, StreamId, StreamKind, StreamType};
use mpeg2ts::pat::Pat;
use mpeg2ts::pes::{PesHeader, PesPacket, PesPacketReader};
use mpeg2ts::pmt::{Descriptor, EsInfo, Pmt};
use mpeg2ts::psi::{Psi, SectionAssembler};
use mpeg2ts::ts::{TsPacket, TsPacketReader};
use mpeg2ts::types::{Pid, VersionNumber};

/// One 188-byte packet; payloads shorter than 184 bytes are padded with an
/// adaptation field.
fn ts_packet(pid: u16, start: bool, cc: u8, payload: &[u8]) -> Vec<u8> {
    assert!(payload.len() <= 184);
    let mut p = vec![0x47, ((pid >> 8) as u8) | if start { 0x40 } else { 0 }, pid as u8];
    if payload.len() == 184 {
        p.push(0x10 | cc);
    } else {
        p.push(0x30 | cc);
        let af_len = 183 - payload.len();
        p.push(af_len as u8);
        if af_len > 0 {
            p.push(0x00);
            for _ in 1..af_len {
                p.push(0xFF);
            }
        }
    }
    p.extend_from_slice(payload);
    assert_eq!(p.len(), 188);
    p
}

/// A PMT payload (pointer field, section, CRC) for one stream.
fn pmt_payload(lsn: u8, pil_hi: u8, stream_type: u8, pid: u16, es_hi: u8, descriptors: &[u8]) -> Vec<u8> {
    let section_len = 9 + 4 + 5 + descriptors.len();
    let mut s = vec![
        0x02,
        0xB0 | (section_len >> 8) as u8,
        section_len as u8,
        0x00,
        0x01,
        0xC1 | (3 << 1),
        0x00,
        lsn,
        0xFF,
        0xFF,
        pil_hi,
        0x00,
        stream_type,
        0xE0 | (pid >> 8) as u8,
        pid as u8,
        es_hi | (descriptors.len() >> 8) as u8,
        descriptors.len() as u8,
    ];
    s.extend_from_slice(descriptors);
    let c = crc32(&s);
    s.extend_from_slice(&c.to_be_bytes());
    let mut payload = vec![0x00];
    payload.extend_from_slice(&s);
    payload
}

fn pes_bytes(stream_id: u8, bounded: bool, pts: u64, data: &[u8]) -> Vec<u8> {
    let plen = if bounded { 3 + 5 + data.len() } else { 0 };
    let mut v = vec![0x00, 0x00, 0x01, stream_id, (plen >> 8) as u8, plen as u8, 0x80, 0x80, 5];
    v.push(0x21 | ((pts >> 29) as u8 & 0x0E));
    v.push((pts >> 22) as u8);
    v.push(((pts >> 14) as u8 & 0xFE) | 1);
    v.push((pts >> 7) as u8);
    v.push(((pts << 1) as u8 & 0xFE) | 1);
    v.extend_from_slice(data);
    v
}

#[test]
fn crc32_check_value() {
    assert_eq!(crc32(b"123456789"), 0x0376_E6E7);
    assert_eq!(crc32(b""), 0xFFFF_FFFF);
}

#[test]
fn crc32_of_section_with_its_crc_is_zero() {
    let payload = pmt_payload(0, 0xF0, 0x1B, 0x100, 0xF0, &[]);
    assert_eq!(crc32(&payload[1..]), 0);
}

#[test]
fn pmt_round_trip() {
    let payload = pmt_payload(0, 0xF0, 0x1B, 0x100, 0xF0, &[]);
    let pmt = Pmt::read_from(&payload).unwrap();
    let expected = Pmt {
        program_num: 1,
        pcr_pid: None,
        version_number: VersionNumber::new(3).unwrap(),
        table: vec![EsInfo {
            stream_type: StreamType::H264,
            elementary_pid: Pid::new(0x100).unwrap(),
            descriptors: vec![],
        }],
    };
    assert_eq!(pmt, expected);
}

#[test]
fn pmt_with_descriptors() {
    let payload = pmt_payload(0, 0xF0, 0x0F, 0x101, 0xF0, &[0x0A, 2, b'e', b'n', 0x52, 0]);
    let pmt = Pmt::read_from(&payload).unwrap();
    assert_eq!(pmt.table.len(), 1);
    assert_eq!(pmt.table[0].stream_type, StreamType::AdtsAac);
    assert_eq!(pmt.table[0].elementary_pid.as_u16(), 0x101);
    assert_eq!(
        pmt.table[0].descriptors,
        vec![Descriptor { tag: 0x0A, data: vec![b'e', b'n'] }, Descriptor { tag: 0x52, data: vec![] }]
    );
}

#[test]
fn pmt_reserved_bit_flip_in_program_info_length() {
    for bit in [0x80u8, 0x40, 0x20, 0x10, 0x08, 0x04] {
        let payload = pmt_payload(0, 0xF0 ^ bit, 0x1B, 0x100, 0xF0, &[]);
        assert_eq!(Pmt::read_from(&payload), Err(ErrorKind::InvalidInput));
    }
}

#[test]
fn pmt_reserved_bit_flip_in_es_info_length() {
    for bit in [0x80u8, 0x40, 0x20, 0x10, 0x08, 0x04] {
        let payload = pmt_payload(0, 0xF0, 0x1B, 0x100, 0xF0 ^ bit, &[]);
        assert_eq!(Pmt::read_from(&payload), Err(ErrorKind::InvalidInput));
    }
}

#[test]
fn pmt_multi_section_unsupported() {
    let payload = pmt_payload(1, 0xF0, 0x1B, 0x100, 0xF0, &[]);
    assert_eq!(Pmt::read_from(&payload), Err(ErrorKind::Unsupported));
}

#[test]
fn pmt_program_info_unsupported() {
    let payload = pmt_payload(0, 0xF1, 0x1B, 0x100, 0xF0, &[]);
    assert_eq!(Pmt::read_from(&payload), Err(ErrorKind::Unsupported));
}

#[test]
fn pmt_bad_crc() {
    let mut payload = pmt_payload(0, 0xF0, 0x1B, 0x100, 0xF0, &[]);
    let last = payload.len() - 1;
    payload[last] ^= 1;
    assert_eq!(Pmt::read_from(&payload), Err(ErrorKind::InvalidInput));
}

#[test]
fn pmt_unknown_stream_type() {
    let payload = pmt_payload(0, 0xF0, 0x7F, 0x100, 0xF0, &[]);
    assert_eq!(Pmt::read_from(&payload), Err(ErrorKind::InvalidInput));
}

#[test]
fn pmt_descriptor_past_es_info_length() {
    // The descriptor declares 5 data bytes, the ES-info length leaves room for 2.
    let payload = pmt_payload(0, 0xF0, 0x1B, 0x100, 0xF0, &[0x0A, 5, 1, 2]);
    assert_eq!(Pmt::read_from(&payload), Err(ErrorKind::InvalidInput));
}

#[test]
fn pmt_wrong_table_id() {
    let mut payload = pmt_payload(0, 0xF0, 0x1B, 0x100, 0xF0, &[]);
    payload[1] = 0x00;
    let n = payload.len();
    let c = crc32(&payload[1..n - 4]);
    payload[n - 4..].copy_from_slice(&c.to_be_bytes());
    assert_eq!(Pmt::read_from(&payload), Err(ErrorKind::InvalidInput));
}

#[test]
fn psi_truncated_section() {
    let payload = pmt_payload(0, 0xF0, 0x1B, 0x100, 0xF0, &[]);
    assert_eq!(Psi::read_from(&payload[..10]), Err(ErrorKind::Truncated));
}

#[test]
fn psi_stops_at_stuffing() {
    let mut payload = pmt_payload(0, 0xF0, 0x1B, 0x100, 0xF0, &[]);
    payload.extend_from_slice(&[0xFF, 0xFF, 0xFF]);
    let psi = Psi::read_from(&payload).unwrap();
    assert_eq!(psi.tables.len(), 1);
    assert_eq!(psi.tables[0].header.table_id, 2);
}

#[test]
fn descriptor_length_past_end_is_truncated() {
    assert_eq!(Descriptor::read_from(&[0x0A, 3, 1, 2]), Err(ErrorKind::Truncated));
    assert_eq!(Descriptor::read_from(&[0x0A]), Err(ErrorKind::Truncated));
    let (d, n) = Descriptor::read_from(&[0x0A, 2, 1, 2, 9]).unwrap();
    assert_eq!(d, Descriptor { tag: 0x0A, data: vec![1, 2] });
    assert_eq!(n, 4);
}

#[test]
fn stream_type_codes() {
    assert_eq!(StreamType::from_u8(0x1B), Ok(StreamType::H264));
    assert_eq!(StreamType::H265.as_u8(), 0x24);
    assert_eq!(StreamType::from_u8(0x00), Err(ErrorKind::InvalidInput));
}

#[test]
fn pid_and_version_bounds() {
    assert!(Pid::new(8192).is_none());
    assert_eq!(Pid::new(8191).unwrap().as_u16(), 8191);
    assert!(VersionNumber::new(32).is_none());
    assert_eq!(VersionNumber::new(31).unwrap().as_u8(), 31);
}

#[test]
fn framer_yields_each_packet_then_none() {
    let mut data = Vec::new();
    for cc in 0..3u8 {
        data.extend(ts_packet(0x100, false, cc, &[cc; 184]));
    }
    let mut reader = TsPacketReader::new(data);
    for cc in 0..3u8 {
        let p = reader.read_ts_packet().unwrap().unwrap();
        assert_eq!(p.pid.as_u16(), 0x100);
        assert_eq!(p.continuity_counter, cc);
        assert_eq!(p.payload, vec![cc; 184]);
    }
    assert_eq!(reader.read_ts_packet(), Ok(None));
    assert_eq!(reader.read_ts_packet(), Ok(None));
}

#[test]
fn framer_empty_input() {
    let mut reader = TsPacketReader::new(Vec::new());
    assert_eq!(reader.read_ts_packet(), Ok(None));
}

#[test]
fn framer_trailing_partial_packet_is_truncated() {
    let mut data = ts_packet(0x100, false, 0, &[1; 184]);
    data.extend_from_slice(&[0x47, 0x01, 0x00]);
    let mut reader = TsPacketReader::new(data);
    assert!(reader.read_ts_packet().unwrap().is_some());
    assert_eq!(reader.read_ts_packet(), Err(ErrorKind::Truncated));
}

#[test]
fn framer_sync_byte_mismatch() {
    let mut data = ts_packet(0x100, false, 0, &[1; 184]);
    data[0] = 0x48;
    let mut reader = TsPacketReader::new(data);
    assert_eq!(reader.read_ts_packet(), Err(ErrorKind::SyncByteMismatch));
}

#[test]
fn framer_reserved_adaptation_field_control() {
    let mut data = ts_packet(0x100, false, 0, &[1; 184]);
    data[3] &= 0x0F;
    let mut reader = TsPacketReader::new(data);
    assert_eq!(reader.read_ts_packet(), Err(ErrorKind::InvalidInput));
}

#[test]
fn framer_continuity_error() {
    let mut data = ts_packet(0x100, false, 5, &[1; 184]);
    data.extend(ts_packet(0x200, false, 0, &[1; 184]));
    data.extend(ts_packet(0x100, false, 7, &[1; 184]));
    data.extend(ts_packet(0x100, false, 8, &[1; 184]));
    let mut reader = TsPacketReader::new(data);
    assert!(reader.read_ts_packet().unwrap().is_some());
    assert!(reader.read_ts_packet().unwrap().is_some());
    assert_eq!(reader.read_ts_packet(), Err(ErrorKind::ContinuityError));
    // The counter was taken: the stream goes on from it.
    assert_eq!(reader.read_ts_packet().unwrap().unwrap().continuity_counter, 8);
}

#[test]
fn framer_counter_wraps_modulo_16() {
    let mut data = ts_packet(0x100, false, 15, &[1; 184]);
    data.extend(ts_packet(0x100, false, 0, &[1; 184]));
    let mut reader = TsPacketReader::new(data);
    assert!(reader.read_ts_packet().unwrap().is_some());
    assert!(reader.read_ts_packet().unwrap().is_some());
}

#[test]
fn packet_with_pcr() {
    let mut p = vec![0x47, 0x41, 0x00, 0x30, 7, 0x10];
    // base 0x1_0000_0001, extension 0x101
    p.extend_from_slice(&[0x80, 0x00, 0x00, 0x00, 0xFF, 0x01]);
    p.resize(188, 0xAB);
    let packet = TsPacket::read_from(&p).unwrap();
    let af = packet.adaptation_field.unwrap();
    let pcr = af.pcr.unwrap();
    assert_eq!(pcr.base, 0x1_0000_0001);
    assert_eq!(pcr.extension, 0x101);
    assert!(packet.payload_unit_start_indicator);
    assert_eq!(packet.pid.as_u16(), 0x100);
    assert_eq!(packet.payload.len(), 188 - 12);
}

#[test]
fn pes_header_timestamps() {
    let bytes = pes_bytes(0xE0, true, 0x1_2345_6789, &[1, 2, 3]);
    let (h, n, off) = PesHeader::read_from(&bytes).unwrap();
    assert_eq!(h.stream_id, StreamId { value: 0xE0 });
    assert_eq!(h.pts, Some(0x1_2345_6789));
    assert_eq!(h.dts, None);
    assert_eq!(n, Some(3));
    assert_eq!(off, 14);
}

#[test]
fn pes_header_bad_marker() {
    let mut bytes = pes_bytes(0xE0, true, 90000, &[1, 2, 3]);
    bytes[11] &= 0xFE;
    assert_eq!(PesHeader::read_from(&bytes), Err(ErrorKind::InvalidInput));
}

#[test]
fn pes_reassembly_bounded_and_unbounded() {
    let audio = pes_bytes(0xC0, true, 1000, &[7; 10]);
    let video_start = pes_bytes(0xE0, false, 2000, &[9; 20]);
    let mut data = ts_packet(0x101, true, 0, &audio);
    data.extend(ts_packet(0x102, true, 0, &video_start));
    data.extend(ts_packet(0x102, false, 1, &[8; 184]));
    let mut reader = PesPacketReader::new(TsPacketReader::new(data));
    let a = reader.read_pes_packet().unwrap().unwrap();
    assert_eq!(a.header.stream_id.value, 0xC0);
    assert_eq!(a.header.pts, Some(1000));
    assert_eq!(a.data, vec![7; 10]);
    let v = reader.read_pes_packet().unwrap().unwrap();
    assert_eq!(v.header.stream_id.value, 0xE0);
    let mut expected = vec![9; 20];
    expected.extend_from_slice(&[8; 184]);
    assert_eq!(v.data, expected);
    assert_eq!(reader.read_pes_packet(), Ok(None));
}

#[test]
fn pes_unbounded_ends_at_next_start() {
    let first = pes_bytes(0xE0, false, 1, &[1; 5]);
    let second = pes_bytes(0xE0, false, 2, &[2; 5]);
    let mut data = ts_packet(0x102, true, 0, &first);
    data.extend(ts_packet(0x102, true, 1, &second));
    let mut reader = PesPacketReader::new(TsPacketReader::new(data));
    let p1 = reader.read_pes_packet().unwrap().unwrap();
    assert_eq!(p1.header.pts, Some(1));
    assert_eq!(p1.data, vec![1; 5]);
    let p2 = reader.read_pes_packet().unwrap().unwrap();
    assert_eq!(p2.header.pts, Some(2));
    assert_eq!(reader.read_pes_packet(), Ok(None));
}

#[test]
fn pes_bounded_cut_short_is_truncated() {
    let audio = pes_bytes(0xC0, true, 1000, &[7; 300])[..100].to_vec();
    let data = ts_packet(0x101, true, 0, &audio);
    let mut reader = PesPacketReader::new(TsPacketReader::new(data));
    assert_eq!(reader.read_pes_packet(), Err(ErrorKind::Truncated));
}

#[test]
fn pes_skips_sections() {
    let payload = pmt_payload(0, 0xF0, 0x1B, 0x100, 0xF0, &[]);
    let data = ts_packet(0x1000, true, 0, &payload);
    let mut reader = PesPacketReader::new(TsPacketReader::new(data));
    assert_eq!(reader.read_pes_packet(), Ok(None));
}

fn pes(id: u8, data: &[u8]) -> PesPacket {
    PesPacket {
        header: PesHeader {
            stream_id: StreamId { value: id },
            priority: false,
            data_alignment_indicator: false,
            copyright: false,
            original_or_copy: false,
            pts: None,
            dts: None,
        },
        data: data.to_vec(),
    }
}

#[test]
fn select_audio_from_interleaved() {
    let packets = vec![pes(0xC0, &[1, 2]), pes(0xE0, &[9, 9]), pes(0xC1, &[3]), pes(0xE1, &[8]), pes(0xDF, &[4])];
    assert_eq!(select_payloads(&packets, StreamKind::Audio), vec![1, 2, 3, 4]);
    assert_eq!(select_payloads(&packets, StreamKind::Video), vec![9, 9, 8]);
    assert_eq!(select_payloads(&packets, StreamKind::Other), Vec::<u8>::new());
}

#[test]
fn stream_id_classes() {
    assert!(StreamId { value: 0xC0 }.is_audio());
    assert!(StreamId { value: 0xDF }.is_audio());
    assert!(StreamId { value: 0xE0 }.is_video());
    assert!(StreamId { value: 0xEF }.is_video());
    assert_eq!(StreamId { value: 0xF0 }.kind(), StreamKind::Other);
    assert_eq!(StreamId { value: 0xBF }.kind(), StreamKind::Other);
}

#[test]
fn pat_decodes_programs() {
    let mut s = vec![0x00, 0xB0, 17, 0x12, 0x34, 0xC1 | (5 << 1), 0x00, 0x00, 0x00, 0x00, 0xE0, 0x10, 0x00, 0x01, 0xE1, 0x00];
    let c = crc32(&s);
    s.extend_from_slice(&c.to_be_bytes());
    let mut payload = vec![0x00];
    payload.extend_from_slice(&s);
    let pat = Pat::read_from(&payload).unwrap();
    assert_eq!(pat.transport_stream_id, 0x1234);
    assert_eq!(pat.version_number.as_u8(), 5);
    assert_eq!(pat.table.len(), 2);
    assert_eq!(pat.table[0].program_num, 0);
    assert_eq!(pat.table[0].program_map_pid.as_u16(), 0x10);
    assert_eq!(pat.table[1].program_num, 1);
    assert_eq!(pat.table[1].program_map_pid.as_u16(), 0x100);
}

#[test]
fn pat_partial_entry_is_truncated() {
    let mut s = vec![0x00, 0xB0, 15, 0x12, 0x34, 0xC1, 0x00, 0x00, 0x00, 0x01, 0xE1, 0x00, 0x00, 0x02];
    let c = crc32(&s);
    s.extend_from_slice(&c.to_be_bytes());
    let mut payload = vec![0x00];
    payload.extend_from_slice(&s);
    assert_eq!(Pat::read_from(&payload), Err(ErrorKind::Truncated));
}

fn long_pmt_payload() -> Vec<u8> {
    let mut descriptors = vec![0x05, 98];
    descriptors.extend_from_slice(&[0x11; 98]);
    descriptors.push(0x06);
    descriptors.push(98);
    descriptors.extend_from_slice(&[0x22; 98]);
    pmt_payload(0, 0xF0, 0x02, 0x200, 0xF0, &descriptors)
}

#[test]
fn section_spanning_two_packets() {
    let payload = long_pmt_payload();
    assert_eq!(payload.len(), 222);
    let first = TsPacket::read_from(&ts_packet(0x100, true, 0, &payload[..184])).unwrap();
    let other = TsPacket::read_from(&ts_packet(0x101, false, 0, &[0; 184])).unwrap();
    let second = TsPacket::read_from(&ts_packet(0x100, false, 1, &payload[184..])).unwrap();
    let mut assembler = SectionAssembler::new(Pid::new(0x100).unwrap());
    assert_eq!(assembler.push(&first), Ok(None));
    assert_eq!(assembler.push(&other), Ok(None));
    let whole = assembler.push(&second).unwrap().unwrap();
    assert_eq!(whole, payload);
    let pmt = Pmt::read_from(&whole).unwrap();
    assert_eq!(pmt.table[0].stream_type, StreamType::Mpeg2Video);
    assert_eq!(pmt.table[0].descriptors.len(), 2);
    assert_eq!(pmt.table[0].descriptors[1].data, vec![0x22; 98]);
}

#[test]
fn section_cut_by_new_start_is_truncated() {
    let payload = long_pmt_payload();
    let first = TsPacket::read_from(&ts_packet(0x100, true, 0, &payload[..184])).unwrap();
    let again = TsPacket::read_from(&ts_packet(0x100, true, 1, &payload[..184])).unwrap();
    let mut assembler = SectionAssembler::new(Pid::new(0x100).unwrap());
    assert_eq!(assembler.push(&first), Ok(None));
    assert_eq!(assembler.push(&again), Err(ErrorKind::Truncated));
}

#[test]
fn section_continuation_without_start_passes_by() {
    let payload = long_pmt_payload();
    let second = TsPacket::read_from(&ts_packet(0x100, false, 1, &payload[184..])).unwrap();
    let mut assembler = SectionAssembler::new(Pid::new(0x100).unwrap());
    assert_eq!(assembler.push(&second), Ok(None));
}

#[test]
fn es_info_unknown_type_on_short_input_is_invalid() {
    assert_eq!(EsInfo::read_from(&[0x7F]), Err(ErrorKind::InvalidInput));
    assert_eq!(EsInfo::read_from(&[0x7F, 0xE1, 0x00]), Err(ErrorKind::InvalidInput));
    assert_eq!(EsInfo::read_from(&[0x1B, 0xE1, 0x00]), Err(ErrorKind::Truncated));
    assert_eq!(EsInfo::read_from(&[]), Err(ErrorKind::Truncated));
}

#[test]
fn pmt_entries_keep_section_order() {
    // Audio, video, audio, video entries, each without descriptors.
    let entries: [(u8, u16); 4] = [(0x03, 0x101), (0x1B, 0x102), (0x0F, 0x103), (0x02, 0x104)];
    let section_len = 9 + 4 + 5 * entries.len();
    let mut s = vec![0x02, 0xB0, section_len as u8, 0x00, 0x01, 0xC1, 0x00, 0x00, 0xE1, 0x00, 0xF0, 0x00];
    for (t, pid) in entries {
        s.extend_from_slice(&[t, 0xE0 | (pid >> 8) as u8, pid as u8, 0xF0, 0x00]);
    }
    let c = crc32(&s);
    s.extend_from_slice(&c.to_be_bytes());
    let mut payload = vec![0x00];
    payload.extend_from_slice(&s);
    let pmt = Pmt::read_from(&payload).unwrap();
    assert_eq!(pmt.pcr_pid, Some(Pid::new(0x100).unwrap()));
    let got: Vec<(StreamType, u16)> =
        pmt.table.iter().map(|e| (e.stream_type, e.elementary_pid.as_u16())).collect();
    assert_eq!(
        got,
        vec![
            (StreamType::Mpeg1Audio, 0x101),
            (StreamType::H264, 0x102),
            (StreamType::AdtsAac, 0x103),
            (StreamType::Mpeg2Video, 0x104)
        ]
    );
}

#[test]
fn pmt_reserved_bit_flip_in_second_entry() {
    let section_len = 9 + 4 + 10;
    let mut s = vec![0x02, 0xB0, section_len as u8, 0x00, 0x01, 0xC1, 0x00, 0x00, 0xFF, 0xFF, 0xF0, 0x00];
    s.extend_from_slice(&[0x03, 0xE1, 0x01, 0xF0, 0x00]);
    s.extend_from_slice(&[0x1B, 0xE1, 0x02, 0xF4, 0x00]);
    let c = crc32(&s);
    s.extend_from_slice(&c.to_be_bytes());
    let mut payload = vec![0x00];
    payload.extend_from_slice(&s);
    assert_eq!(Pmt::read_from(&payload), Err(ErrorKind::InvalidInput));
}

#[test]
fn section_with_bad_length_bits_is_handed_on_at_once() {
    // Length field with the unused bits set: ten bits give 18, which the
    // first packet holds, so the payload is handed on and the parser rejects it.
    let mut payload = pmt_payload(0, 0xF0, 0x1B, 0x100, 0xF0, &[]);
    payload[2] |= 0x0C;
    let packet = TsPacket::read_from(&ts_packet(0x100, true, 0, &payload)).unwrap();
    let mut assembler = SectionAssembler::new(Pid::new(0x100).unwrap());
    let whole = assembler.push(&packet).unwrap().unwrap();
    assert_eq!(Pmt::read_from(&whole), Err(ErrorKind::InvalidInput));
}
