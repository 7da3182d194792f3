//! Read-only qcow2 (v2/v3) image decoding: header validation, L1/L2 table
//! decoding, guest-cluster resolution and read/convert planning.
use vstd::prelude::*;

verus! {

/// Big-endian value of the four bytes of `b` starting at `off`.
pub open spec fn spec_be_u32(b: Seq<u8>, off: int) -> int {
    b[off] * 0x100_0000 + b[off + 1] * 0x1_0000 + b[off + 2] * 0x100 + b[off + 3]
}

/// Big-endian value of the eight bytes of `b` starting at `off`.
pub open spec fn spec_be_u64(b: Seq<u8>, off: int) -> int {
    spec_be_u32(b, off) * 0x1_0000_0000 + spec_be_u32(b, off + 4)
}

/// Reads a big-endian `u32` at byte offset `off`.
pub fn be_u32(buf: &[u8], off: usize) -> (r: u32)
    requires
        off + 4 <= buf@.len(),
    ensures
        r == spec_be_u32(buf@, off as int),
{
    let b0 = buf[off];
    let b1 = buf[off + 1];
    let b2 = buf[off + 2];
    let b3 = buf[off + 3];
    let r = ((b0 as u32) << 24) | ((b1 as u32) << 16) | ((b2 as u32) << 8) | (b3 as u32);
    assert(r == b0 * 0x100_0000u32 + b1 * 0x1_0000u32 + b2 * 0x100u32 + b3) by (bit_vector)
        requires
            r == ((b0 as u32) << 24) | ((b1 as u32) << 16) | ((b2 as u32) << 8) | (b3 as u32),
    ;
    r
}

/// Reads a big-endian `u64` at byte offset `off`.
pub fn be_u64(buf: &[u8], off: usize) -> (r: u64)
    requires
        off + 8 <= buf@.len(),
    ensures
        r == spec_be_u64(buf@, off as int),
{
    let n = buf.len();
    assert(off + 8 <= n);
    let hi = be_u32(buf, off);
    let lo = be_u32(buf, off + 4);
    let r = ((hi as u64) << 32) | (lo as u64);
    assert(r == hi * 0x1_0000_0000u64 + lo) by (bit_vector)
        requires
            r == ((hi as u64) << 32) | (lo as u64),
    ;
    r
}

} // verus!

verus! {

/// Magic number at offset 0 of every qcow2 image ("QFI\xfb").
pub const QCOW2_MAGIC: u32 = 0x5146_49fb;

/// Bits 9..55 of an L1/L2 entry hold the cluster-aligned host offset.
pub const OFFSET_MASK: u64 = 0x00ff_ffff_ffff_fe00;

/// L2 entry flag: the cluster is compressed.
pub const L2_COMPRESSED: u64 = 0x4000_0000_0000_0000;

/// L2 entry flag (v3): the standard cluster reads as all zeroes.
pub const L2_ZERO: u64 = 1;

/// Incompatible feature bits tolerated on a read-only open (bit 0: dirty).
pub const INCOMPAT_SUPPORTED: u64 = 1;

/// `std::io::Error`, carried opaquely inside `Qcow2Error::Io`.
#[verifier::external_type_specification]
#[verifier::external_body]
pub struct ExIoError(std::io::Error);

/// Why an image cannot be read.
#[derive(Debug)]
pub enum Qcow2Error {
    Io(std::io::Error),
    BadMagic(u32),
    UnsupportedVersion(u32),
    BadClusterBits(u32),
    Encrypted(u32),
    HasBackingFile,
    CompressedCluster,
    UnsupportedIncompatibleFeatures(u64),
    TruncatedHeader,
    OffsetOutOfRange(u64),
}

/// The message of an error other than an I/O failure.
pub open spec fn error_text(e: Qcow2Error) -> Seq<char> {
    match e {
        Qcow2Error::Io(_) => "io error: "@,
        Qcow2Error::BadMagic(m) => "not a qcow2 image (magic 0x"@ + crate::text::hex_fixed(m as nat, 8)
            + ")"@,
        Qcow2Error::UnsupportedVersion(v) => "unsupported qcow2 version "@ + crate::text::dec(v as nat),
        Qcow2Error::BadClusterBits(b) => "unreasonable cluster_bits "@ + crate::text::dec(b as nat),
        Qcow2Error::Encrypted(m) => "encrypted image (crypt_method "@ + crate::text::dec(m as nat)
            + ") not supported"@,
        Qcow2Error::HasBackingFile => "image has a backing file; flatten it first (qemu-img convert on source)"@,
        Qcow2Error::CompressedCluster => "compressed cluster found; re-export the image uncompressed"@,
        Qcow2Error::UnsupportedIncompatibleFeatures(b) => "unsupported incompatible feature bits 0x"@
            + crate::text::hex_fixed(b as nat, 16),
        Qcow2Error::TruncatedHeader => "file too small to be a valid qcow2 header"@,
        Qcow2Error::OffsetOutOfRange(o) => "table offset 0x"@ + crate::text::hex_min(o as nat)
            + " past end of file"@,
    }
}

/// Calls `Display` on an I/O error (`to_string`); the text comes from the
/// operating system and is not stated.
#[verifier::external_body]
fn io_error_text(e: &std::io::Error) -> (r: String) {
    e.to_string()
}

impl Qcow2Error {
    /// The message shown for the error: for an I/O failure `io error: `
    /// and the system's text; otherwise `error_text`.
    pub fn message(&self) -> (r: String)
        ensures
            self is Io ==> crate::text::has_prefix(r@, "io error: "@),
            !(self is Io) ==> r@ == error_text(*self),
    {
        let mut v: Vec<char> = Vec::new();
        match self {
            Qcow2Error::Io(e) => {
                crate::text::extend_str(&mut v, "io error: ");
                let t = io_error_text(e);
                let ghost head = v@;
                crate::text::extend_str(&mut v, t.as_str());
                assert(v@.subrange(0, head.len() as int) =~= head);
            },
            Qcow2Error::BadMagic(m) => {
                crate::text::extend_str(&mut v, "not a qcow2 image (magic 0x");
                crate::text::push_hex_fixed(&mut v, *m as u64, 8);
                crate::text::extend_str(&mut v, ")");
            },
            Qcow2Error::UnsupportedVersion(n) => {
                crate::text::extend_str(&mut v, "unsupported qcow2 version ");
                crate::text::push_dec(&mut v, *n as u64);
            },
            Qcow2Error::BadClusterBits(b) => {
                crate::text::extend_str(&mut v, "unreasonable cluster_bits ");
                crate::text::push_dec(&mut v, *b as u64);
            },
            Qcow2Error::Encrypted(m) => {
                crate::text::extend_str(&mut v, "encrypted image (crypt_method ");
                crate::text::push_dec(&mut v, *m as u64);
                crate::text::extend_str(&mut v, ") not supported");
            },
            Qcow2Error::HasBackingFile => {
                crate::text::extend_str(
                    &mut v,
                    "image has a backing file; flatten it first (qemu-img convert on source)",
                );
            },
            Qcow2Error::CompressedCluster => {
                crate::text::extend_str(&mut v, "compressed cluster found; re-export the image uncompressed");
            },
            Qcow2Error::UnsupportedIncompatibleFeatures(b) => {
                crate::text::extend_str(&mut v, "unsupported incompatible feature bits 0x");
                crate::text::push_hex_fixed(&mut v, *b, 16);
            },
            Qcow2Error::TruncatedHeader => {
                crate::text::extend_str(&mut v, "file too small to be a valid qcow2 header");
            },
            Qcow2Error::OffsetOutOfRange(o) => {
                crate::text::extend_str(&mut v, "table offset 0x");
                crate::text::push_hex_min(&mut v, *o);
                crate::text::extend_str(&mut v, " past end of file");
            },
        }
        crate::text::string_from_chars(v.as_slice())
    }
}

/// The header fields that reading an image needs.
#[derive(Debug, Clone, Copy)]
pub struct Qcow2Header {
    pub version: u32,
    pub cluster_bits: u32,
    pub cluster_size: u64,
    pub virtual_size: u64,
    pub l1_size: u32,
    pub l1_table_offset: u64,
    pub l2_entries: u64,
}

impl Qcow2Header {
    /// Cluster geometry is consistent: 512 B .. 2 MiB clusters, and an L2
    /// table (one cluster) holds `cluster_size / 8` entries.
    pub open spec fn wf(self) -> bool {
        &&& 9 <= self.cluster_bits <= 21
        &&& self.cluster_size == (1u64 << self.cluster_bits)
        &&& self.l2_entries == self.cluster_size / 8
    }
}

/// End of the L1 table, saturating at `u64::MAX` when the sum overflows.
pub open spec fn l1_table_end(offset: u64, l1_size: u32) -> int {
    if offset + l1_size * 8 > u64::MAX {
        u64::MAX as int
    } else {
        offset + l1_size * 8
    }
}

/// Feature bits set in the (v3) incompatible-features field that a
/// read-only open does not tolerate; zero for a v2 header or a short read.
pub open spec fn spec_unsupported_features(h: Seq<u8>, version: u32) -> u64 {
    if version >= 3 && h.len() >= 80 {
        (spec_be_u64(h, 72) as u64) & !INCOMPAT_SUPPORTED
    } else {
        0
    }
}

/// What a header of `h.len()` bytes read from a file of `file_len` bytes
/// decodes to, checks applied in order: magic, version, backing file,
/// cluster size, encryption, incompatible features, L1 table bounds.
pub open spec fn spec_parse_header(h: Seq<u8>, file_len: u64) -> Result<Qcow2Header, Qcow2Error> {
    let magic = spec_be_u32(h, 0) as u32;
    let version = spec_be_u32(h, 4) as u32;
    let bits = spec_be_u32(h, 20) as u32;
    let crypt = spec_be_u32(h, 32) as u32;
    let l1_size = spec_be_u32(h, 36) as u32;
    let l1_off = spec_be_u64(h, 40) as u64;
    let unsupported = spec_unsupported_features(h, version);
    if magic != QCOW2_MAGIC {
        Err(Qcow2Error::BadMagic(magic))
    } else if version != 2 && version != 3 {
        Err(Qcow2Error::UnsupportedVersion(version))
    } else if spec_be_u64(h, 8) != 0 {
        Err(Qcow2Error::HasBackingFile)
    } else if bits < 9 || bits > 21 {
        Err(Qcow2Error::BadClusterBits(bits))
    } else if crypt != 0 {
        Err(Qcow2Error::Encrypted(crypt))
    } else if unsupported != 0 {
        Err(Qcow2Error::UnsupportedIncompatibleFeatures(unsupported))
    } else if l1_table_end(l1_off, l1_size) > file_len {
        Err(Qcow2Error::OffsetOutOfRange(l1_off))
    } else {
        Ok(
            Qcow2Header {
                version,
                cluster_bits: bits,
                cluster_size: 1u64 << bits,
                virtual_size: spec_be_u64(h, 24) as u64,
                l1_size,
                l1_table_offset: l1_off,
                l2_entries: (1u64 << bits) / 8,
            },
        )
    }
}

/// How many header bytes to read from a file of `file_len` bytes: the v3
/// header (104 bytes) when the file is that long, else the v2 header (72).
pub fn header_read_len(file_len: u64) -> (r: Result<usize, Qcow2Error>)
    ensures
        file_len < 72 ==> r is Err && r->Err_0 is TruncatedHeader,
        72 <= file_len < 104 ==> r == Ok::<usize, Qcow2Error>(72),
        104 <= file_len ==> r == Ok::<usize, Qcow2Error>(104),
{
    if file_len < 72 {
        Err(Qcow2Error::TruncatedHeader)
    } else if file_len >= 104 {
        Ok(104)
    } else {
        Ok(72)
    }
}

/// Validates and decodes the header bytes `hdr` (as many as
/// `header_read_len` asked for) of an image file of `file_len` bytes.
pub fn parse_header(hdr: &[u8], file_len: u64) -> (r: Result<Qcow2Header, Qcow2Error>)
    requires
        hdr@.len() == 72 || hdr@.len() == 104,
    ensures
        r == spec_parse_header(hdr@, file_len),
        r is Ok ==> r->Ok_0.wf(),
        r is Ok ==> l1_table_end(r->Ok_0.l1_table_offset, r->Ok_0.l1_size) <= file_len,
{
    let magic = be_u32(hdr, 0);
    if magic != QCOW2_MAGIC {
        return Err(Qcow2Error::BadMagic(magic));
    }
    let version = be_u32(hdr, 4);
    if version != 2 && version != 3 {
        return Err(Qcow2Error::UnsupportedVersion(version));
    }
    let backing_file_offset = be_u64(hdr, 8);
    if backing_file_offset != 0 {
        return Err(Qcow2Error::HasBackingFile);
    }
    let cluster_bits = be_u32(hdr, 20);
    if cluster_bits < 9 || cluster_bits > 21 {
        return Err(Qcow2Error::BadClusterBits(cluster_bits));
    }
    let cluster_size: u64 = 1u64 << cluster_bits;
    let virtual_size = be_u64(hdr, 24);
    let crypt_method = be_u32(hdr, 32);
    if crypt_method != 0 {
        return Err(Qcow2Error::Encrypted(crypt_method));
    }
    let l1_size = be_u32(hdr, 36);
    let l1_table_offset = be_u64(hdr, 40);
    if version >= 3 && hdr.len() >= 80 {
        let incompatible = be_u64(hdr, 72);
        if incompatible & !INCOMPAT_SUPPORTED != 0 {
            return Err(Qcow2Error::UnsupportedIncompatibleFeatures(incompatible & !INCOMPAT_SUPPORTED));
        }
    }
    let table_bytes: u64 = (l1_size as u64) * 8;
    let end: u64 = match l1_table_offset.checked_add(table_bytes) {
        Some(e) => e,
        None => u64::MAX,
    };
    if end > file_len {
        return Err(Qcow2Error::OffsetOutOfRange(l1_table_offset));
    }
    Ok(Qcow2Header {
        version,
        cluster_bits,
        cluster_size,
        virtual_size,
        l1_size,
        l1_table_offset,
        l2_entries: cluster_size / 8,
    })
}

} // verus!

verus! {

/// The `n` big-endian 8-byte entries at the start of `raw`.
pub open spec fn spec_table(raw: Seq<u8>, n: int) -> Seq<u64> {
    Seq::new(n as nat, |i: int| spec_be_u64(raw, 8 * i) as u64)
}

/// Decodes `n` big-endian `u64` table entries (an L1 or L2 table).
pub fn decode_table(raw: &[u8], n: usize) -> (r: Vec<u64>)
    requires
        n * 8 <= raw@.len(),
    ensures
        r@ == spec_table(raw@, n as int),
{
    let mut t: Vec<u64> = Vec::with_capacity(n);
    let mut i: usize = 0;
    let len = raw.len();
    while i < n
        invariant
            i <= n,
            len == raw@.len(),
            n * 8 <= raw@.len(),
            t@ == spec_table(raw@, i as int),
        decreases n - i,
    {
        let e = be_u64(raw, i * 8);
        t.push(e);
        i = i + 1;
        assert(t@ =~= spec_table(raw@, i as int));
    }
    t
}

/// Where a guest cluster's data lives.
#[derive(Debug, Clone, Copy, PartialEq, Eq)]
pub enum ClusterLoc {
    /// Unallocated or explicit-zero: reads as zeroes (a hole in the output).
    Zero,
    /// Host byte offset of `cluster_size` bytes of data.
    Data(u64),
}

/// What an L2 entry says of its cluster.
pub open spec fn spec_entry_loc(entry: u64) -> Result<ClusterLoc, Qcow2Error> {
    if entry & L2_COMPRESSED != 0 {
        Err(Qcow2Error::CompressedCluster)
    } else if entry & L2_ZERO != 0 || entry & OFFSET_MASK == 0 {
        Ok(ClusterLoc::Zero)
    } else {
        Ok(ClusterLoc::Data(entry & OFFSET_MASK))
    }
}

/// Classifies an L2 entry: compressed clusters are refused, zero-flagged or
/// unallocated ones are holes, anything else is data at the masked offset.
pub fn entry_loc(entry: u64) -> (r: Result<ClusterLoc, Qcow2Error>)
    ensures
        r == spec_entry_loc(entry),
{
    if entry & L2_COMPRESSED != 0 {
        return Err(Qcow2Error::CompressedCluster);
    }
    let host_offset = entry & OFFSET_MASK;
    if entry & L2_ZERO != 0 || host_offset == 0 {
        return Ok(ClusterLoc::Zero);
    }
    Ok(ClusterLoc::Data(host_offset))
}

/// One step of resolving a guest cluster.
#[derive(Debug)]
pub enum Resolution {
    /// The cluster's location is known.
    Located(ClusterLoc),
    /// The L2 table at this host offset (one cluster) must be read first.
    NeedL2(u64),
}

/// Lifts an entry classification into a resolution step.
pub open spec fn located(r: Result<ClusterLoc, Qcow2Error>) -> Result<Resolution, Qcow2Error> {
    match r {
        Ok(loc) => Ok(Resolution::Located(loc)),
        Err(e) => Err(e),
    }
}

/// `offset + len`, saturating at `u64::MAX`.
pub open spec fn saturating_end(offset: u64, len: u64) -> int {
    if offset + len > u64::MAX {
        u64::MAX as int
    } else {
        offset + len
    }
}

/// One contiguous piece of a guest read: `take` bytes from byte
/// `in_cluster` of guest cluster `guest_cluster`.
#[derive(Debug, Clone, Copy)]
pub struct ReadChunk {
    pub guest_cluster: u64,
    pub in_cluster: u64,
    pub take: usize,
}

/// The chunks that a read of `remaining` bytes at guest byte `pos` splits
/// into, with clusters of `cs` bytes, as (cluster, offset in it, length).
pub open spec fn spec_read_chunks(pos: int, remaining: int, cs: int) -> Seq<(int, int, int)>
    decreases remaining,
{
    if remaining <= 0 || cs <= 0 {
        seq![]
    } else {
        let inc = pos % cs;
        let take = if cs - inc < remaining { cs - inc } else { remaining };
        seq![(pos / cs, inc, take)] + spec_read_chunks(pos + take, remaining - take, cs)
    }
}

/// The decoded state of an open image: geometry, the L1 table and a
/// single-entry L2 cache keyed by the L2 table's host offset.
pub struct Qcow2Reader {
    file_len: u64,
    cluster_size: u64,
    cluster_bits: u32,
    virtual_size: u64,
    l2_entries: u64,
    l1_table: Vec<u64>,
    l2_cache_offset: u64,
    l2_cache: Vec<u64>,
}

impl Qcow2Reader {
    /// Geometry is consistent and the cache is empty or a whole L2 table.
    pub closed spec fn wf(&self) -> bool {
        &&& 9 <= self.cluster_bits <= 21
        &&& self.cluster_size == (1u64 << self.cluster_bits)
        &&& self.l2_entries == self.cluster_size / 8
        &&& (self.l2_cache@.len() == 0 || self.l2_cache@.len() == self.l2_entries)
    }

    pub closed spec fn spec_file_len(&self) -> u64 {
        self.file_len
    }

    pub closed spec fn spec_cluster_size(&self) -> u64 {
        self.cluster_size
    }

    pub closed spec fn spec_cluster_bits(&self) -> u32 {
        self.cluster_bits
    }

    pub closed spec fn spec_virtual_size(&self) -> u64 {
        self.virtual_size
    }

    pub closed spec fn spec_l2_entries(&self) -> u64 {
        self.l2_entries
    }

    pub closed spec fn spec_l1(&self) -> Seq<u64> {
        self.l1_table@
    }

    pub closed spec fn spec_cache_offset(&self) -> u64 {
        self.l2_cache_offset
    }

    pub closed spec fn spec_cache(&self) -> Seq<u64> {
        self.l2_cache@
    }

    /// Host offset of the L2 table covering guest cluster `gc` (0: none).
    pub open spec fn spec_l2_offset(&self, gc: u64) -> u64 {
        let idx = gc / self.spec_l2_entries();
        if idx < self.spec_l1().len() {
            self.spec_l1()[idx as int] & OFFSET_MASK
        } else {
            0
        }
    }

    /// The cache holds the L2 table at host offset `off`.
    pub open spec fn cache_holds(&self, off: u64) -> bool {
        self.spec_cache_offset() == off && self.spec_cache().len() > 0
    }

    /// Builds the reader from a validated header, the file length and the
    /// raw L1 table bytes read at `header.l1_table_offset`.
    pub fn new(header: Qcow2Header, file_len: u64, l1_raw: &[u8]) -> (r: Self)
        requires
            header.wf(),
            l1_raw@.len() == header.l1_size * 8,
        ensures
            r.wf(),
            r.spec_file_len() == file_len,
            r.spec_cluster_size() == header.cluster_size,
            r.spec_cluster_bits() == header.cluster_bits,
            r.spec_virtual_size() == header.virtual_size,
            r.spec_l2_entries() == header.l2_entries,
            r.spec_l1() == spec_table(l1_raw@, header.l1_size as int),
            r.spec_cache().len() == 0,
            r.spec_cache_offset() == 0,
    {
        let l1_table = decode_table(l1_raw, header.l1_size as usize);
        Qcow2Reader {
            file_len,
            cluster_size: header.cluster_size,
            cluster_bits: header.cluster_bits,
            virtual_size: header.virtual_size,
            l2_entries: header.l2_entries,
            l1_table,
            l2_cache_offset: 0,
            l2_cache: Vec::new(),
        }
    }

    /// Size of the virtual disk in bytes.
    pub fn virtual_size(&self) -> (r: u64)
        ensures
            r == self.spec_virtual_size(),
    {
        self.virtual_size
    }

    /// Cluster size in bytes.
    pub fn cluster_size(&self) -> (r: u64)
        ensures
            r == self.spec_cluster_size(),
    {
        self.cluster_size
    }
}

} // verus!

verus! {

/// Facts about a cluster size of `1 << bits` bytes.
pub proof fn lemma_cluster_geometry(bits: u32)
    requires
        9 <= bits <= 21,
    ensures
        512 <= (1u64 << bits) <= 0x20_0000,
        ((1u64 << bits) / 8) * 8 == (1u64 << bits),
{
    assert(512 <= (1u64 << bits) <= 0x20_0000) by (bit_vector)
        requires
            9 <= bits <= 21,
    ;
    assert(((1u64 << bits) / 8) * 8 == (1u64 << bits)) by (bit_vector)
        requires
            9 <= bits <= 21,
    ;
}

impl Qcow2Reader {
    /// One step of finding where guest cluster `gc` lives. `loaded` is the
    /// L2 table that the previous step asked for (`NeedL2`), if it was read;
    /// the reader then caches it. A cached table is used without a read.
    pub fn resolve_cluster(&mut self, gc: u64, loaded: Option<&[u8]>) -> (r: Result<
        Resolution,
        Qcow2Error,
    >)
        requires
            old(self).wf(),
            loaded is Some ==> loaded->0@.len() == old(self).spec_cluster_size(),
        ensures
            final(self).wf(),
            final(self).spec_file_len() == old(self).spec_file_len(),
            final(self).spec_cluster_size() == old(self).spec_cluster_size(),
            final(self).spec_cluster_bits() == old(self).spec_cluster_bits(),
            final(self).spec_virtual_size() == old(self).spec_virtual_size(),
            final(self).spec_l2_entries() == old(self).spec_l2_entries(),
            final(self).spec_l1() == old(self).spec_l1(),
            ({
                let off = old(self).spec_l2_offset(gc);
                let idx = (gc % old(self).spec_l2_entries()) as int;
                let unchanged = final(self).spec_cache() == old(self).spec_cache()
                    && final(self).spec_cache_offset() == old(self).spec_cache_offset();
                if off == 0 {
                    r == Ok::<Resolution, Qcow2Error>(Resolution::Located(ClusterLoc::Zero))
                        && unchanged
                } else if old(self).cache_holds(off) {
                    r == located(spec_entry_loc(old(self).spec_cache()[idx])) && unchanged
                } else if saturating_end(off, old(self).spec_cluster_size())
                    > old(self).spec_file_len() {
                    r == Err::<Resolution, Qcow2Error>(Qcow2Error::OffsetOutOfRange(off))
                        && unchanged
                } else if loaded is None {
                    r == Ok::<Resolution, Qcow2Error>(Resolution::NeedL2(off)) && unchanged
                } else {
                    let table = spec_table(loaded->0@, old(self).spec_l2_entries() as int);
                    &&& final(self).spec_cache() == table
                    &&& final(self).spec_cache_offset() == off
                    &&& r == located(spec_entry_loc(table[idx]))
                }
            }),
    {
        proof {
            lemma_cluster_geometry(self.cluster_bits);
        }
        let l1_index = gc / self.l2_entries;
        let l2_index = (gc % self.l2_entries) as usize;
        if l1_index >= self.l1_table.len() as u64 {
            return Ok(Resolution::Located(ClusterLoc::Zero));
        }
        let l2_offset = self.l1_table[l1_index as usize] & OFFSET_MASK;
        if l2_offset == 0 {
            return Ok(Resolution::Located(ClusterLoc::Zero));
        }
        if l2_offset != self.l2_cache_offset || self.l2_cache.len() == 0 {
            let end: u64 = match l2_offset.checked_add(self.cluster_size) {
                Some(e) => e,
                None => u64::MAX,
            };
            if end > self.file_len {
                return Err(Qcow2Error::OffsetOutOfRange(l2_offset));
            }
            match loaded {
                None => {
                    return Ok(Resolution::NeedL2(l2_offset));
                },
                Some(raw) => {
                    let table = decode_table(raw, self.l2_entries as usize);
                    self.l2_cache = table;
                    self.l2_cache_offset = l2_offset;
                },
            }
        }
        let entry = self.l2_cache[l2_index];
        match entry_loc(entry) {
            Ok(loc) => Ok(Resolution::Located(loc)),
            Err(e) => Err(e),
        }
    }
}

} // verus!

verus! {

/// A read chunk as (cluster, offset in cluster, length).
pub open spec fn chunk_view(c: ReadChunk) -> (int, int, int) {
    (c.guest_cluster as int, c.in_cluster as int, c.take as int)
}

/// The guest bytes a read chunk (cluster, offset in it, length) yields:
/// zeros for a hole; for a data cluster, that span of the cluster's bytes
/// as read from the image.
pub open spec fn spec_chunk_bytes(loc: ClusterLoc, data: Seq<u8>, c: (int, int, int)) -> Seq<u8> {
    match loc {
        ClusterLoc::Zero => Seq::new(c.2 as nat, |_i: int| 0u8),
        ClusterLoc::Data(_) => data.subrange(c.1, c.1 + c.2),
    }
}

/// Appends what a read chunk yields to the bytes read so far, given where
/// its cluster lives and, for a data cluster, the cluster's bytes.
pub fn append_chunk(out: &mut Vec<u8>, loc: ClusterLoc, data: &[u8], chunk: &ReadChunk)
    requires
        loc is Data ==> chunk.in_cluster + chunk.take <= data@.len(),
    ensures
        final(out)@ == old(out)@ + spec_chunk_bytes(loc, data@, chunk_view(*chunk)),
{
    let take = chunk.take;
    match loc {
        ClusterLoc::Zero => {
            let mut i: usize = 0;
            while i < take
                invariant
                    i <= take,
                    out@ == old(out)@ + Seq::new(i as nat, |_j: int| 0u8),
                decreases take - i,
            {
                out.push(0u8);
                i = i + 1;
                assert(out@ =~= old(out)@ + Seq::new(i as nat, |_j: int| 0u8));
            }
            assert(Seq::new(take as nat, |_j: int| 0u8) =~= spec_chunk_bytes(
                loc,
                data@,
                chunk_view(*chunk),
            ));
        },
        ClusterLoc::Data(_) => {
            let dl: usize = data.len();
            assert(chunk.in_cluster <= dl);
            let from = chunk.in_cluster as usize;
            assert(from == chunk.in_cluster);
            let mut i: usize = 0;
            while i < take
                invariant
                    i <= take,
                    dl == data@.len(),
                    from + take <= dl,
                    out@ == old(out)@ + data@.subrange(from as int, from + i),
                decreases take - i,
            {
                out.push(data[from + i]);
                i = i + 1;
                assert(out@ =~= old(out)@ + data@.subrange(from as int, from + i));
            }
        },
    }
}

/// Number of clusters covering `vs` bytes with clusters of `cs` bytes.
pub open spec fn spec_num_clusters(vs: int, cs: int) -> int {
    (vs + cs - 1) / cs
}

/// Bytes of guest cluster `c` that lie inside the virtual disk.
pub open spec fn spec_write_len(vs: int, cs: int, c: int) -> int {
    if cs < vs - c * cs {
        cs
    } else {
        vs - c * cs
    }
}

/// Total of `spec_write_len` over the first `k` clusters.
pub open spec fn spec_written_total(vs: int, cs: int, k: int) -> int
    decreases k,
{
    if k <= 0 {
        0
    } else {
        spec_written_total(vs, cs, k - 1) + spec_write_len(vs, cs, k - 1)
    }
}

/// Shifting and masking by a power of two divide and take the remainder.
pub proof fn lemma_shift_mask(pos: u64, bits: u32)
    requires
        bits < 64,
    ensures
        pos >> (bits as u64) == pos / (1u64 << bits),
        pos & (((1u64 << bits) - 1) as u64) == pos % (1u64 << bits),
        (1u64 << bits) > 0,
{
    vstd::bits::lemma_u64_pow2_no_overflow(bits as nat);
    vstd::bits::lemma_u64_shl_is_mul(1, bits as u64);
    vstd::bits::lemma_u64_shr_is_div(pos, bits as u64);
    vstd::bits::lemma_u64_low_bits_mask_is_mod(pos, bits as nat);
    assert((1u64 << bits) == (1u64 << (bits as u64))) by (bit_vector)
        requires
            bits < 64,
    ;
}

impl Qcow2Reader {
    /// Splits a read of `len` guest bytes at guest byte `offset` into
    /// per-cluster chunks, in order.
    pub fn plan_read(&self, offset: u64, len: usize) -> (r: Vec<ReadChunk>)
        requires
            self.wf(),
            offset + len <= u64::MAX,
        ensures
            r@.map_values(|c: ReadChunk| chunk_view(c)) == spec_read_chunks(
                offset as int,
                len as int,
                self.spec_cluster_size() as int,
            ),
    {
        proof {
            lemma_cluster_geometry(self.cluster_bits);
        }
        let ghost cs = self.cluster_size as int;
        let mut chunks: Vec<ReadChunk> = Vec::new();
        let mut pos: u64 = offset;
        let mut written: usize = 0;
        while written < len
            invariant
                self.wf(),
                cs == self.spec_cluster_size(),
                512 <= cs,
                written <= len,
                pos == offset + written,
                offset + len <= u64::MAX,
                chunks@.map_values(|c: ReadChunk| chunk_view(c)) + spec_read_chunks(
                    pos as int,
                    len - written,
                    cs,
                ) == spec_read_chunks(offset as int, len as int, cs),
            decreases len - written,
        {
            proof {
                lemma_shift_mask(pos, self.cluster_bits);
            }
            let guest_cluster = pos >> (self.cluster_bits as u64);
            let in_cluster = pos & (self.cluster_size - 1);
            let room = self.cluster_size - in_cluster;
            let rem = (len - written) as u64;
            let take_u64 = if room < rem {
                room
            } else {
                rem
            };
            let take = take_u64 as usize;
            let c = ReadChunk { guest_cluster, in_cluster, take };
            let ghost before = chunks@.map_values(|c: ReadChunk| chunk_view(c));
            chunks.push(c);
            proof {
                let rest = spec_read_chunks(pos + take, len - written - take, cs);
                assert(spec_read_chunks(pos as int, len - written, cs) == seq![chunk_view(c)]
                    + rest);
                assert(chunks@.map_values(|c: ReadChunk| chunk_view(c)) =~= before + seq![
                    chunk_view(c),
                ]);
                assert(before + seq![chunk_view(c)] + rest =~= before + (seq![chunk_view(c)]
                    + rest));
            }
            pos = pos + take_u64;
            written = written + take;
        }
        proof {
            assert(chunks@.map_values(|c: ReadChunk| chunk_view(c)) + seq![] =~= chunks@.map_values(
                |c: ReadChunk| chunk_view(c),
            ));
        }
        chunks
    }

    /// Number of guest clusters covering the virtual disk.
    pub fn num_clusters(&self) -> (r: u64)
        requires
            self.wf(),
        ensures
            r == spec_num_clusters(
                self.spec_virtual_size() as int,
                self.spec_cluster_size() as int,
            ),
    {
        proof {
            lemma_cluster_geometry(self.cluster_bits);
        }
        let vs = self.virtual_size;
        let cs = self.cluster_size;
        let q = vs / cs;
        if vs % cs != 0 {
            proof {
                assert(q < u64::MAX) by (nonlinear_arith)
                    requires
                        cs >= 2,
                        q == vs / cs,
                        vs <= u64::MAX,
                ;
                assert((vs + cs - 1) / (cs as int) == q + 1) by (nonlinear_arith)
                    requires
                        cs > 0,
                        q == vs / cs,
                        vs % cs != 0,
                ;
            }
            q + 1
        } else {
            proof {
                assert((vs + cs - 1) / (cs as int) == q) by (nonlinear_arith)
                    requires
                        cs > 0,
                        q == vs / cs,
                        vs % cs == 0,
                ;
            }
            q
        }
    }

    /// A data cluster must lie wholly inside the image file.
    pub fn check_data_cluster(&self, host_offset: u64) -> (r: Result<(), Qcow2Error>)
        ensures
            saturating_end(host_offset, self.spec_cluster_size()) > self.spec_file_len() ==> r
                == Err::<(), Qcow2Error>(Qcow2Error::OffsetOutOfRange(host_offset)),
            saturating_end(host_offset, self.spec_cluster_size()) <= self.spec_file_len() ==> r is Ok,
    {
        let end = match host_offset.checked_add(self.cluster_size) {
            Some(e) => e,
            None => u64::MAX,
        };
        if end > self.file_len {
            Err(Qcow2Error::OffsetOutOfRange(host_offset))
        } else {
            Ok(())
        }
    }

    /// Guest byte position of the start of cluster `c`.
    pub fn cluster_start(&self, c: u64) -> (r: u64)
        requires
            self.wf(),
            c < spec_num_clusters(
                self.spec_virtual_size() as int,
                self.spec_cluster_size() as int,
            ),
        ensures
            r == c * self.spec_cluster_size(),
            r < self.spec_virtual_size(),
    {
        proof {
            lemma_cluster_geometry(self.cluster_bits);
            let vs = self.virtual_size as int;
            let cs = self.cluster_size as int;
            assert(c * cs < vs) by (nonlinear_arith)
                requires
                    cs > 0,
                    vs >= 0,
                    c < (vs + cs - 1) / cs,
                    c >= 0,
            ;
        }
        c * self.cluster_size
    }

    /// What converting cluster `c` writes to the raw file: nothing for a
    /// hole (it stays sparse); for a data cluster, whose `data` was read
    /// from its host offset, the part of it inside the virtual disk at the
    /// cluster's guest position.
    pub fn raw_extent(&self, c: u64, loc: ClusterLoc, data: &[u8]) -> (r: Option<(u64, Vec<u8>)>)
        requires
            self.wf(),
            c < spec_num_clusters(
                self.spec_virtual_size() as int,
                self.spec_cluster_size() as int,
            ),
            loc is Data ==> data@.len() >= self.spec_cluster_size(),
        ensures
            loc is Zero ==> r is None,
            loc is Data ==> (r matches Some((pos, bytes)) && pos == c * self.spec_cluster_size()
                && bytes@ == data@.subrange(
                0,
                spec_write_len(
                    self.spec_virtual_size() as int,
                    self.spec_cluster_size() as int,
                    c as int,
                ),
            )),
    {
        match loc {
            ClusterLoc::Zero => None,
            ClusterLoc::Data(_) => {
                let pos = self.cluster_start(c);
                let n64 = self.write_len(c);
                let dl: usize = data.len();
                assert(n64 <= dl);
                let n = n64 as usize;
                assert(n == n64);
                let mut bytes: Vec<u8> = Vec::new();
                let mut i: usize = 0;
                while i < n
                    invariant
                        i <= n,
                        n <= data@.len(),
                        bytes@ == data@.subrange(0, i as int),
                    decreases n - i,
                {
                    bytes.push(data[i]);
                    i = i + 1;
                    assert(bytes@ =~= data@.subrange(0, i as int));
                }
                Some((pos, bytes))
            },
        }
    }

    /// How many bytes of cluster `c` belong to the virtual disk (the last
    /// cluster may be cut short).
    pub fn write_len(&self, c: u64) -> (r: u64)
        requires
            self.wf(),
            c < spec_num_clusters(
                self.spec_virtual_size() as int,
                self.spec_cluster_size() as int,
            ),
        ensures
            r == spec_write_len(
                self.spec_virtual_size() as int,
                self.spec_cluster_size() as int,
                c as int,
            ),
            0 < r <= self.spec_cluster_size(),
    {
        proof {
            lemma_cluster_geometry(self.cluster_bits);
        }
        let start = self.cluster_start(c);
        let left = self.virtual_size - start;
        if self.cluster_size < left {
            self.cluster_size
        } else {
            left
        }
    }
}

} // verus!

verus! {

/// Total bytes of a chunk list.
pub open spec fn sum_takes(s: Seq<(int, int, int)>) -> int
    decreases s.len(),
{
    if s.len() == 0 {
        0
    } else {
        s[0].2 + sum_takes(s.drop_first())
    }
}

/// A planned read covers exactly the requested bytes, and every chunk is a
/// non-empty range inside one cluster.
pub proof fn lemma_read_chunks_cover(pos: int, remaining: int, cs: int)
    requires
        cs > 0,
        pos >= 0,
        remaining >= 0,
    ensures
        sum_takes(spec_read_chunks(pos, remaining, cs)) == remaining,
        forall|k: int|
            0 <= k < spec_read_chunks(pos, remaining, cs).len() ==> {
                let c = #[trigger] spec_read_chunks(pos, remaining, cs)[k];
                0 <= c.1 < cs && 0 < c.2 && c.1 + c.2 <= cs
            },
    decreases remaining,
{
    if remaining > 0 {
        let inc = pos % cs;
        let take = if cs - inc < remaining {
            cs - inc
        } else {
            remaining
        };
        let rest = spec_read_chunks(pos + take, remaining - take, cs);
        lemma_read_chunks_cover(pos + take, remaining - take, cs);
        let s = spec_read_chunks(pos, remaining, cs);
        assert(s == seq![(pos / cs, inc, take)] + rest);
        assert(s.drop_first() =~= rest);
        assert forall|k: int| 0 <= k < s.len() implies {
            let c = #[trigger] s[k];
            0 <= c.1 < cs && 0 < c.2 && c.1 + c.2 <= cs
        } by {
            if k > 0 {
                assert(s[k] == rest[k - 1]);
            }
        }
    }
}

/// Converting the image writes exactly the virtual size: the per-cluster
/// write lengths over all clusters add up to `vs`.
pub proof fn lemma_written_total(vs: int, cs: int)
    requires
        cs > 0,
        vs >= 0,
    ensures
        spec_written_total(vs, cs, spec_num_clusters(vs, cs)) == vs,
{
    let n = spec_num_clusters(vs, cs);
    if vs == 0 {
        assert(n == 0) by (nonlinear_arith)
            requires
                cs > 0,
                n == (vs + cs - 1) / cs,
                vs == 0,
        ;
    } else {
        assert(n >= 1 && (n - 1) * cs < vs && vs <= (n - 1) * cs + cs) by (nonlinear_arith)
            requires
                cs > 0,
                vs > 0,
                n == (vs + cs - 1) / cs,
        ;
        lemma_written_prefix(vs, cs, n - 1);
        assert(spec_write_len(vs, cs, n - 1) == vs - (n - 1) * cs);
    }
}

/// Every cluster before the last contributes a whole cluster.
proof fn lemma_written_prefix(vs: int, cs: int, k: int)
    requires
        cs > 0,
        k >= 0,
        k * cs < vs,
    ensures
        spec_written_total(vs, cs, k) == k * cs,
    decreases k,
{
    if k == 0 {
        assert(k * cs == 0) by (nonlinear_arith)
            requires
                k == 0,
        ;
    } else {
        assert((k - 1) * cs < vs && (k - 1) * cs + cs == k * cs) by (nonlinear_arith)
            requires
                cs > 0,
                k > 0,
                k * cs < vs,
        ;
        lemma_written_prefix(vs, cs, k - 1);
        assert(spec_write_len(vs, cs, k - 1) == cs);
    }
}

} // verus!

verus! {

/// The bytes a read assembles: what each chunk yields, in order, given
/// where each chunk's cluster lives and the bytes read for it.
pub open spec fn spec_assembled(
    locs: Seq<ClusterLoc>,
    datas: Seq<Seq<u8>>,
    chunks: Seq<(int, int, int)>,
) -> Seq<u8>
    decreases chunks.len(),
{
    if chunks.len() == 0 || locs.len() == 0 || datas.len() == 0 {
        Seq::empty()
    } else {
        spec_chunk_bytes(locs[0], datas[0], chunks[0]) + spec_assembled(
            locs.drop_first(),
            datas.drop_first(),
            chunks.drop_first(),
        )
    }
}

/// A planned read, filled chunk by chunk, yields exactly the requested
/// number of bytes, whichever clusters are holes and which hold data.
pub proof fn lemma_read_assembles_len(
    pos: int,
    len: int,
    cs: int,
    locs: Seq<ClusterLoc>,
    datas: Seq<Seq<u8>>,
)
    requires
        cs > 0,
        pos >= 0,
        len >= 0,
        locs.len() == spec_read_chunks(pos, len, cs).len(),
        datas.len() == locs.len(),
        forall|k: int|
            0 <= k < locs.len() && #[trigger] locs[k] is Data ==> datas[k].len() >= cs,
    ensures
        spec_assembled(locs, datas, spec_read_chunks(pos, len, cs)).len() == len,
{
    lemma_read_chunks_cover(pos, len, cs);
    lemma_assembled_len(locs, datas, spec_read_chunks(pos, len, cs), cs);
}

proof fn lemma_assembled_len(
    locs: Seq<ClusterLoc>,
    datas: Seq<Seq<u8>>,
    chunks: Seq<(int, int, int)>,
    cs: int,
)
    requires
        locs.len() == chunks.len(),
        datas.len() == chunks.len(),
        forall|k: int|
            0 <= k < chunks.len() ==> {
                let c = #[trigger] chunks[k];
                0 <= c.1 < cs && 0 < c.2 && c.1 + c.2 <= cs
            },
        forall|k: int|
            0 <= k < locs.len() && #[trigger] locs[k] is Data ==> datas[k].len() >= cs,
    ensures
        spec_assembled(locs, datas, chunks).len() == sum_takes(chunks),
    decreases chunks.len(),
{
    if chunks.len() > 0 {
        let c = chunks[0];
        assert(0 <= c.1 < cs && 0 < c.2 && c.1 + c.2 <= cs);
        assert(spec_chunk_bytes(locs[0], datas[0], c).len() == c.2);
        assert forall|k: int| 0 <= k < chunks.len() - 1 implies {
            let d = #[trigger] chunks.drop_first()[k];
            0 <= d.1 < cs && 0 < d.2 && d.1 + d.2 <= cs
        } by {
            assert(chunks.drop_first()[k] == chunks[k + 1]);
        }
        assert forall|k: int|
            0 <= k < locs.len() - 1 && #[trigger] locs.drop_first()[k] is Data implies datas.drop_first()[k].len()
            >= cs by {
            assert(locs.drop_first()[k] == locs[k + 1]);
            assert(datas.drop_first()[k] == datas[k + 1]);
        }
        lemma_assembled_len(locs.drop_first(), datas.drop_first(), chunks.drop_first(), cs);
    }
}

} // verus!

verus! {

/// Assembling one more chunk appends what it yields.
proof fn lemma_assembled_snoc(
    locs: Seq<ClusterLoc>,
    datas: Seq<Seq<u8>>,
    chunks: Seq<(int, int, int)>,
    k: int,
)
    requires
        0 <= k < chunks.len(),
        locs.len() == chunks.len(),
        datas.len() == chunks.len(),
    ensures
        spec_assembled(locs.take(k + 1), datas.take(k + 1), chunks.take(k + 1)) == spec_assembled(
            locs.take(k),
            datas.take(k),
            chunks.take(k),
        ) + spec_chunk_bytes(locs[k], datas[k], chunks[k]),
    decreases k,
{
    let b = spec_chunk_bytes(locs[k], datas[k], chunks[k]);
    if k == 0 {
        assert(locs.take(1).drop_first() =~= Seq::<ClusterLoc>::empty());
        assert(datas.take(1).drop_first() =~= Seq::<Seq<u8>>::empty());
        assert(chunks.take(1).drop_first() =~= Seq::<(int, int, int)>::empty());
        assert(spec_assembled(locs.take(0), datas.take(0), chunks.take(0)) =~= Seq::<u8>::empty());
        assert(locs.take(1)[0] == locs[0]);
        assert(datas.take(1)[0] == datas[0]);
        assert(chunks.take(1)[0] == chunks[0]);
        let rest = spec_assembled(
            locs.take(1).drop_first(),
            datas.take(1).drop_first(),
            chunks.take(1).drop_first(),
        );
        assert(rest =~= Seq::<u8>::empty());
        assert(spec_assembled(locs.take(1), datas.take(1), chunks.take(1)) == b + rest);
        assert(b + rest =~= b);
    } else {
        lemma_assembled_snoc(locs.drop_first(), datas.drop_first(), chunks.drop_first(), k - 1);
        assert(locs.take(k + 1).drop_first() =~= locs.drop_first().take(k));
        assert(datas.take(k + 1).drop_first() =~= datas.drop_first().take(k));
        assert(chunks.take(k + 1).drop_first() =~= chunks.drop_first().take(k));
        assert(locs.take(k).drop_first() =~= locs.drop_first().take(k - 1));
        assert(datas.take(k).drop_first() =~= datas.drop_first().take(k - 1));
        assert(chunks.take(k).drop_first() =~= chunks.drop_first().take(k - 1));
        let head = spec_chunk_bytes(locs[0], datas[0], chunks[0]);
        let mid = spec_assembled(locs.drop_first().take(k - 1), datas.drop_first().take(k - 1), chunks.drop_first().take(k - 1));
        assert(head + (mid + b) =~= (head + mid) + b);
    }
}

/// The bytes a planned read yields, given where each chunk's cluster
/// lives and, for data clusters, the cluster's bytes as read from the
/// image: each chunk's bytes in order (see `spec_assembled`).
pub fn assemble_read(chunks: &Vec<ReadChunk>, locs: &Vec<ClusterLoc>, datas: &Vec<Vec<u8>>) -> (r: Vec<u8>)
    requires
        locs@.len() == chunks@.len(),
        datas@.len() == chunks@.len(),
        forall|k: int|
            0 <= k < chunks@.len() && (#[trigger] locs@[k]) is Data ==> chunks@[k].in_cluster
                + chunks@[k].take <= datas@[k]@.len(),
    ensures
        r@ == spec_assembled(
            locs@,
            datas@.map_values(|d: Vec<u8>| d@),
            chunks@.map_values(|c: ReadChunk| chunk_view(c)),
        ),
{
    let ghost ds = datas@.map_values(|d: Vec<u8>| d@);
    let ghost cs = chunks@.map_values(|c: ReadChunk| chunk_view(c));
    let n = chunks.len();
    let mut out: Vec<u8> = Vec::new();
    let mut k: usize = 0;
    assert(spec_assembled(locs@.take(0), ds.take(0), cs.take(0)) =~= Seq::<u8>::empty());
    while k < n
        invariant
            k <= n,
            n == chunks@.len(),
            locs@.len() == n,
            datas@.len() == n,
            ds == datas@.map_values(|d: Vec<u8>| d@),
            cs == chunks@.map_values(|c: ReadChunk| chunk_view(c)),
            forall|j: int|
                0 <= j < chunks@.len() && (#[trigger] locs@[j]) is Data ==> chunks@[j].in_cluster
                    + chunks@[j].take <= datas@[j]@.len(),
            out@ == spec_assembled(locs@.take(k as int), ds.take(k as int), cs.take(k as int)),
        decreases n - k,
    {
        proof {
            lemma_assembled_snoc(locs@, ds, cs, k as int);
        }
        let ghost before = out@;
        append_chunk(&mut out, locs[k], datas[k].as_slice(), &chunks[k]);
        assert(ds[k as int] == datas@[k as int]@);
        assert(cs[k as int] == chunk_view(chunks@[k as int]));
        k = k + 1;
    }
    assert(locs@.take(n as int) =~= locs@);
    assert(ds.take(n as int) =~= ds);
    assert(cs.take(n as int) =~= cs);
    out
}

} // verus!
