use caiman::qcow2::{
    append_chunk, assemble_read, be_u32, be_u64, entry_loc, header_read_len, parse_header, ClusterLoc, Qcow2Error,
    Qcow2Reader, Resolution,
};

fn put_u32(buf: &mut [u8], off: usize, v: u32) {
    buf[off..off + 4].copy_from_slice(&v.to_be_bytes());
}

fn put_u64(buf: &mut [u8], off: usize, v: u64) {
    buf[off..off + 8].copy_from_slice(&v.to_be_bytes());
}

/// A v3 header: 512-byte clusters, a 1 KiB disk, one L1 entry at 0x200.
fn header_bytes() -> Vec<u8> {
    let mut h = vec![0u8; 104];
    put_u32(&mut h, 0, 0x514649fb);
    put_u32(&mut h, 4, 3);
    put_u32(&mut h, 20, 9);
    put_u64(&mut h, 24, 1024);
    put_u32(&mut h, 36, 1);
    put_u64(&mut h, 40, 0x200);
    h
}

#[test]
fn big_endian_fields_decode() {
    let b = [0x12, 0x34, 0x56, 0x78, 0x9a, 0xbc, 0xde, 0xf0, 0x11];
    assert_eq!(be_u32(&b, 0), 0x12345678);
    assert_eq!(be_u64(&b, 1), 0x3456789abcdef011);
}

#[test]
fn header_length_depends_on_file_size() {
    assert!(matches!(header_read_len(10), Err(Qcow2Error::TruncatedHeader)));
    assert!(matches!(header_read_len(80), Ok(72)));
    assert!(matches!(header_read_len(4096), Ok(104)));
}

#[test]
fn valid_header_is_parsed() {
    let h = header_bytes();
    let hdr = parse_header(&h, 2048).ok().unwrap();
    assert_eq!(hdr.version, 3);
    assert_eq!(hdr.cluster_bits, 9);
    assert_eq!(hdr.cluster_size, 512);
    assert_eq!(hdr.virtual_size, 1024);
    assert_eq!(hdr.l1_size, 1);
    assert_eq!(hdr.l1_table_offset, 0x200);
    assert_eq!(hdr.l2_entries, 64);
}

#[test]
fn header_errors_come_in_order() {
    let mut h = header_bytes();
    h[0] = 0;
    assert!(matches!(parse_header(&h, 2048), Err(Qcow2Error::BadMagic(0x004649fb))));
    let mut h = header_bytes();
    put_u32(&mut h, 4, 4);
    assert!(matches!(parse_header(&h, 2048), Err(Qcow2Error::UnsupportedVersion(4))));
    let mut h = header_bytes();
    put_u64(&mut h, 8, 0x1000);
    assert!(matches!(parse_header(&h, 2048), Err(Qcow2Error::HasBackingFile)));
    let mut h = header_bytes();
    put_u32(&mut h, 20, 30);
    assert!(matches!(parse_header(&h, 2048), Err(Qcow2Error::BadClusterBits(30))));
    let mut h = header_bytes();
    put_u32(&mut h, 32, 1);
    assert!(matches!(parse_header(&h, 2048), Err(Qcow2Error::Encrypted(1))));
    let mut h = header_bytes();
    put_u64(&mut h, 72, 3);
    assert!(matches!(parse_header(&h, 2048), Err(Qcow2Error::UnsupportedIncompatibleFeatures(2))));
    let h = header_bytes();
    assert!(matches!(parse_header(&h, 0x200), Err(Qcow2Error::OffsetOutOfRange(0x200))));
}

#[test]
fn l2_entries_are_classified() {
    assert!(matches!(entry_loc(0x4000_0000_0000_0600), Err(Qcow2Error::CompressedCluster)));
    assert!(matches!(entry_loc(0x601), Ok(ClusterLoc::Zero)));
    assert!(matches!(entry_loc(0), Ok(ClusterLoc::Zero)));
    assert!(matches!(entry_loc(0x8000_0000_0000_0600), Ok(ClusterLoc::Data(0x600))));
}

#[test]
fn cluster_resolution_reads_l2_once() {
    let h = header_bytes();
    let hdr = parse_header(&h, 2048).ok().unwrap();
    let l1 = 0x8000_0000_0000_0400u64.to_be_bytes();
    let mut r = Qcow2Reader::new(hdr, 2048, &l1);
    assert!(matches!(r.resolve_cluster(0, None), Ok(Resolution::NeedL2(0x400))));
    let mut l2 = vec![0u8; 512];
    put_u64(&mut l2, 0, 0x600);
    assert!(matches!(
        r.resolve_cluster(0, Some(&l2)),
        Ok(Resolution::Located(ClusterLoc::Data(0x600)))
    ));
    assert!(matches!(r.resolve_cluster(1, None), Ok(Resolution::Located(ClusterLoc::Zero))));
    // beyond the L1 table: a hole
    assert!(matches!(r.resolve_cluster(64, None), Ok(Resolution::Located(ClusterLoc::Zero))));
}

#[test]
fn l2_table_past_end_is_refused() {
    let h = header_bytes();
    let hdr = parse_header(&h, 2048).ok().unwrap();
    let l1 = 0x800u64.to_be_bytes();
    let mut r = Qcow2Reader::new(hdr, 2048, &l1);
    assert!(matches!(r.resolve_cluster(0, None), Err(Qcow2Error::OffsetOutOfRange(0x800))));
}

#[test]
fn reads_are_split_at_cluster_boundaries() {
    let h = header_bytes();
    let hdr = parse_header(&h, 2048).ok().unwrap();
    let l1 = 0x400u64.to_be_bytes();
    let r = Qcow2Reader::new(hdr, 2048, &l1);
    let chunks = r.plan_read(500, 30);
    assert_eq!(chunks.len(), 2);
    assert_eq!((chunks[0].guest_cluster, chunks[0].in_cluster, chunks[0].take), (0, 500, 12));
    assert_eq!((chunks[1].guest_cluster, chunks[1].in_cluster, chunks[1].take), (1, 0, 18));
    let total: usize = chunks.iter().map(|c| c.take).sum();
    assert_eq!(total, 30);
}

#[test]
fn conversion_covers_the_virtual_size() {
    let mut h = header_bytes();
    put_u64(&mut h, 24, 1000);
    let hdr = parse_header(&h, 2048).ok().unwrap();
    let l1 = 0x400u64.to_be_bytes();
    let r = Qcow2Reader::new(hdr, 2048, &l1);
    assert_eq!(r.num_clusters(), 2);
    assert_eq!(r.cluster_start(1), 512);
    assert_eq!(r.write_len(0), 512);
    assert_eq!(r.write_len(1), 488);
    assert_eq!(r.write_len(0) + r.write_len(1), r.virtual_size());
}

#[test]
fn reads_fill_holes_with_zeros_and_data_from_the_cluster() {
    let h = header_bytes();
    let hdr = parse_header(&h, 2048).ok().unwrap();
    let l1 = 0x400u64.to_be_bytes();
    let r = Qcow2Reader::new(hdr, 2048, &l1);
    let chunks = r.plan_read(500, 30);
    let first: Vec<u8> = (0..512).map(|i| (i % 251) as u8).collect();
    let mut out = vec![7u8];
    append_chunk(&mut out, ClusterLoc::Data(0x600), &first, &chunks[0]);
    append_chunk(&mut out, ClusterLoc::Zero, &[], &chunks[1]);
    assert_eq!(out.len(), 31);
    assert_eq!(out[0], 7);
    assert_eq!(&out[1..13], &first[500..512]);
    assert!(out[13..].iter().all(|b| *b == 0));
    let whole = assemble_read(&chunks, &vec![ClusterLoc::Data(0x600), ClusterLoc::Zero], &vec![first.clone(), vec![]]);
    assert_eq!(whole.len(), 30);
    assert_eq!(&whole[..12], &first[500..512]);
    assert!(whole[12..].iter().all(|b| *b == 0));
}

#[test]
fn conversion_writes_data_clusters_and_skips_holes() {
    let mut h = header_bytes();
    put_u64(&mut h, 24, 1000);
    let hdr = parse_header(&h, 2048).ok().unwrap();
    let l1 = 0x400u64.to_be_bytes();
    let r = Qcow2Reader::new(hdr, 2048, &l1);
    let data: Vec<u8> = (0..512).map(|i| (i % 13) as u8).collect();
    assert!(r.raw_extent(0, ClusterLoc::Zero, &[]).is_none());
    let (pos, bytes) = r.raw_extent(1, ClusterLoc::Data(0x600), &data).unwrap();
    assert_eq!(pos, 512);
    assert_eq!(bytes, data[..488].to_vec());
    let (pos, bytes) = r.raw_extent(0, ClusterLoc::Data(0x600), &data).unwrap();
    assert_eq!((pos, bytes.len()), (0, 512));
}

#[test]
fn data_clusters_must_fit_in_the_file() {
    let h = header_bytes();
    let hdr = parse_header(&h, 2048).ok().unwrap();
    let l1 = 0x400u64.to_be_bytes();
    let r = Qcow2Reader::new(hdr, 2048, &l1);
    assert!(r.check_data_cluster(0x600).is_ok());
    assert!(matches!(r.check_data_cluster(0x700), Err(Qcow2Error::OffsetOutOfRange(0x700))));
    assert!(matches!(r.check_data_cluster(u64::MAX), Err(Qcow2Error::OffsetOutOfRange(u64::MAX))));
}

#[test]
fn error_messages() {
    assert_eq!(Qcow2Error::BadMagic(0x12345678).message(), "not a qcow2 image (magic 0x12345678)");
    assert_eq!(Qcow2Error::BadMagic(0xff).message(), "not a qcow2 image (magic 0x000000ff)");
    assert_eq!(Qcow2Error::UnsupportedVersion(4).message(), "unsupported qcow2 version 4");
    assert_eq!(Qcow2Error::BadClusterBits(30).message(), "unreasonable cluster_bits 30");
    assert_eq!(
        Qcow2Error::Encrypted(1).message(),
        "encrypted image (crypt_method 1) not supported"
    );
    assert_eq!(
        Qcow2Error::UnsupportedIncompatibleFeatures(2).message(),
        "unsupported incompatible feature bits 0x0000000000000002"
    );
    assert_eq!(
        Qcow2Error::OffsetOutOfRange(0x200).message(),
        "table offset 0x200 past end of file"
    );
    assert_eq!(
        Qcow2Error::TruncatedHeader.message(),
        "file too small to be a valid qcow2 header"
    );
    let io = Qcow2Error::Io(std::io::Error::new(std::io::ErrorKind::Other, "disk gone"));
    assert_eq!(io.message(), "io error: disk gone");
}

#[test]
fn io_errors_keep_their_text() {
    let e = Qcow2Error::Io(std::io::Error::new(std::io::ErrorKind::Other, "disk went away"));
    assert_eq!(e.message(), "io error: disk went away");
    assert_eq!(Qcow2Error::HasBackingFile.message().is_empty(), false);
}
