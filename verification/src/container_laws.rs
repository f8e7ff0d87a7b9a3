//! What a read of a written container gives back.
use vstd::prelude::*;

use crate::bytes::{le_u16, le_u32, le_u64, lemma_u16_roundtrip, lemma_u32_roundtrip, lemma_u64_roundtrip};
use crate::container::{
    spec_container_bytes, spec_data_start, spec_decompress, spec_descriptor_at,
    spec_descriptor_bytes, spec_find_section, spec_header_bytes, spec_integrity_digest,
    spec_integrity_failure, spec_integrity_kind, spec_integrity_len, spec_metadata,
    spec_metadata_bytes, spec_metadata_len, spec_parse_entries, spec_parse_header,
    spec_parse_sections, spec_payload_descriptor, spec_read_package, spec_read_payload,
    spec_section_count, spec_table_bytes, spec_write_fits, spec_written_descriptors,
    spec_written_header, section_data, range_ok, CompressionKind, DecodeFailure, HeaderView,
    IntegrityKind, PackagePurpose, PackageView, ReadOptions, SectionDescriptor, SectionKind,
    WriteOptionsView,
};

verus! {

proof fn lemma_table_entry(ds: Seq<SectionDescriptor>, i: int)
    requires
        0 <= i < ds.len(),
    ensures
        spec_table_bytes(ds).len() == 24 * ds.len(),
        spec_table_bytes(ds).subrange(24 * i, 24 * i + 24) == spec_descriptor_bytes(ds[i]),
    decreases ds.len(),
{
    let t = spec_table_bytes(ds);
    lemma_table_len(ds);
    lemma_table_len(ds.drop_last());
    let prefix = spec_table_bytes(ds.drop_last());
    if i == ds.len() - 1 {
        assert(t.subrange(24 * i, 24 * i + 24) =~= spec_descriptor_bytes(ds[i]));
    } else {
        lemma_table_entry(ds.drop_last(), i);
        assert(t.subrange(24 * i, 24 * i + 24) =~= prefix.subrange(24 * i, 24 * i + 24));
    }
}

proof fn lemma_table_len(ds: Seq<SectionDescriptor>)
    ensures
        spec_table_bytes(ds).len() == 24 * ds.len(),
    decreases ds.len(),
{
    if ds.len() > 0 {
        lemma_table_len(ds.drop_last());
    }
}

proof fn lemma_descriptor_roundtrip(b: Seq<u8>, at: int, d: SectionDescriptor)
    requires
        0 <= at,
        at + 24 <= b.len(),
        b.subrange(at, at + 24) == spec_descriptor_bytes(d),
    ensures
        SectionKind::spec_from_byte(b[at]) == Some(d.kind),
        spec_descriptor_at(b, at) == d,
{
    let e = b.subrange(at, at + 24);
    assert(b[at] == e[0]);
    assert(b[at + 1] == e[1]);
    assert(b.subrange(at + 4, at + 12) =~= e.subrange(4, 12));
    assert(e.subrange(4, 12) =~= le_u64(d.offset));
    assert(b.subrange(at + 12, at + 20) =~= e.subrange(12, 20));
    assert(e.subrange(12, 20) =~= le_u64(d.length));
    lemma_u64_roundtrip(b, at + 4, d.offset);
    lemma_u64_roundtrip(b, at + 12, d.length);
}

proof fn lemma_parse_entries_of(b: Seq<u8>, start: int, ds: Seq<SectionDescriptor>, k: nat)
    requires
        0 <= start,
        k <= ds.len(),
        start + 24 * ds.len() <= b.len(),
        forall|i: int|
            0 <= i < ds.len() ==> #[trigger] b.subrange(start + 24 * i, start + 24 * i + 24)
                == spec_descriptor_bytes(ds[i]),
    ensures
        spec_parse_entries(b, start, k) == Ok::<Seq<SectionDescriptor>, DecodeFailure>(ds.take(k as int)),
    decreases k,
{
    if k == 0 {
        assert(ds.take(0) =~= Seq::<SectionDescriptor>::empty());
    } else {
        lemma_parse_entries_of(b, start, ds, (k - 1) as nat);
        let i = k - 1;
        assert(b.subrange(start + 24 * i, start + 24 * i + 24) == spec_descriptor_bytes(ds[i]));
        lemma_descriptor_roundtrip(b, start + 24 * i, ds[i]);
        assert(ds.take(k as int) =~= ds.take(i).push(ds[i]));
    }
}

proof fn lemma_find_first(ds: Seq<SectionDescriptor>, kind: SectionKind)
    requires
        ds.len() > 0,
        ds[0].kind == kind,
    ensures
        spec_find_section(ds, kind) == Some(ds[0]),
{
}

proof fn lemma_find_absent(ds: Seq<SectionDescriptor>, kind: SectionKind)
    requires
        forall|i: int| 0 <= i < ds.len() ==> ds[i].kind != kind,
    ensures
        spec_find_section(ds, kind) is None,
    decreases ds.len(),
{
    if ds.len() > 0 {
        assert(ds[0].kind != kind);
        assert forall|i: int| 0 <= i < ds.drop_first().len() implies ds.drop_first()[i].kind
            != kind by {
            assert(ds.drop_first()[i] == ds[i + 1]);
        }
        lemma_find_absent(ds.drop_first(), kind);
    }
}

proof fn lemma_find_at(ds: Seq<SectionDescriptor>, kind: SectionKind, j: int)
    requires
        0 <= j < ds.len(),
        ds[j].kind == kind,
        forall|i: int| 0 <= i < j ==> ds[i].kind != kind,
    ensures
        spec_find_section(ds, kind) == Some(ds[j]),
    decreases j,
{
    if j > 0 {
        assert(ds[0].kind != kind);
        assert forall|i: int| 0 <= i < j - 1 implies ds.drop_first()[i].kind != kind by {
            assert(ds.drop_first()[i] == ds[i + 1]);
        }
        lemma_find_at(ds.drop_first(), kind, j - 1);
    }
}

/// The header a written container holds is parsed back as written.
proof fn lemma_header_roundtrip(magic: Seq<u8>, section: Seq<u8>, o: WriteOptionsView)
    requires
        magic.len() == 4,
        o.package_id.len() == 4,
        spec_write_fits(section.len(), o),
    ensures
        spec_parse_header(magic, spec_container_bytes(magic, section, o)) == Ok::<
            HeaderView,
            DecodeFailure,
        >(spec_written_header(o)),
{
    let b = spec_container_bytes(magic, section, o);
    let h = spec_written_header(o);
    let hb = spec_header_bytes(magic, h);
    assert(hb.len() == 28);
    assert(b.subrange(0, 28) =~= hb);
    assert(b.take(4) =~= magic);
    assert(b[4] == hb[4]);
    assert(b[5] == hb[5]);
    assert(b[6] == hb[6]);
    assert(b[7] == hb[7]);
    assert(b.subrange(8, 12) =~= o.package_id);
    assert(b.subrange(12, 14) =~= le_u16(h.section_count));
    assert(b.subrange(16, 20) =~= le_u32(h.section_table_offset));
    assert(b.subrange(20, 24) =~= le_u32(h.section_table_len));
    lemma_u16_roundtrip(b, 12, h.section_count);
    lemma_u32_roundtrip(b, 16, h.section_table_offset);
    lemma_u32_roundtrip(b, 20, h.section_table_len);
    match spec_parse_header(magic, b) {
        Ok(parsed) => {
            assert(parsed.package_id =~= h.package_id);
        },
        Err(_) => {},
    }
}

/// The section table a written container holds is parsed back as written.
proof fn lemma_sections_roundtrip(magic: Seq<u8>, section: Seq<u8>, o: WriteOptionsView)
    requires
        magic.len() == 4,
        o.package_id.len() == 4,
        spec_write_fits(section.len(), o),
    ensures
        spec_parse_sections(spec_container_bytes(magic, section, o), spec_written_header(o))
            == Ok::<Seq<SectionDescriptor>, DecodeFailure>(
            spec_written_descriptors(section.len(), o),
        ),
{
    let b = spec_container_bytes(magic, section, o);
    let h = spec_written_header(o);
    let ds = spec_written_descriptors(section.len(), o);
    let n = spec_section_count(o);
    assert(ds.len() == n);
    lemma_table_len(ds);
    let hb = spec_header_bytes(magic, h);
    let t = spec_table_bytes(ds);
    assert(hb.len() == 28);
    assert forall|i: int| 0 <= i < ds.len() implies #[trigger] b.subrange(
        28 + 24 * i,
        28 + 24 * i + 24,
    ) == spec_descriptor_bytes(ds[i]) by {
        lemma_table_entry(ds, i);
        assert(b.subrange(28 + 24 * i, 28 + 24 * i + 24) =~= t.subrange(24 * i, 24 * i + 24));
    }
    lemma_parse_entries_of(b, 28, ds, n);
    assert(ds.take(n as int) =~= ds);
}

/// Where each region of a written container lies.
proof fn lemma_layout(magic: Seq<u8>, section: Seq<u8>, o: WriteOptionsView)
    requires
        magic.len() == 4,
        o.package_id.len() == 4,
        spec_write_fits(section.len(), o),
    ensures
        ({
            let b = spec_container_bytes(magic, section, o);
            let start = spec_data_start(o) as int;
            let after = start + section.len();
            let after_md = after + spec_metadata_len(o);
            &&& b.len() == after_md + spec_integrity_len(o)
            &&& b.subrange(start, after) == section
            &&& b.subrange(after, after_md) == spec_metadata_bytes(o)
            &&& o.integrity == IntegrityKind::Sha256 ==> b.subrange(after_md, after_md + 32)
                == spec_integrity_digest(
                magic,
                spec_written_header(o),
                spec_written_descriptors(section.len(), o),
                section,
            )
        }),
{
    let b = spec_container_bytes(magic, section, o);
    let h = spec_written_header(o);
    let ds = spec_written_descriptors(section.len(), o);
    lemma_table_len(ds);
    let hb = spec_header_bytes(magic, h);
    let t = spec_table_bytes(ds);
    let md = spec_metadata_bytes(o);
    assert(hb.len() == 28);
    let start = spec_data_start(o) as int;
    assert(start == hb.len() + t.len());
    let pre = hb + t + section + md;
    let after = start + section.len();
    let after_md = after + spec_metadata_len(o);
    assert(md.len() == spec_metadata_len(o));
    assert(pre.len() == after_md);
    assert(b.subrange(start, after) =~= section);
    assert(b.subrange(after, after_md) =~= md);
    if o.integrity == IntegrityKind::Sha256 {
        let d = spec_integrity_digest(magic, h, ds, section);
        assert(b == pre + d);
        assert(b.subrange(after_md, after_md + 32) =~= d);
    }
}

/// The integrity kind and check of a written container.
proof fn lemma_integrity_part(magic: Seq<u8>, section: Seq<u8>, o: WriteOptionsView)
    requires
        magic.len() == 4,
        o.package_id.len() == 4,
        spec_write_fits(section.len(), o),
    ensures
        ({
            let b = spec_container_bytes(magic, section, o);
            let ds = spec_written_descriptors(section.len(), o);
            &&& spec_integrity_kind(ds) == Ok::<IntegrityKind, DecodeFailure>(
                if o.integrity == IntegrityKind::Sha256 {
                    IntegrityKind::Sha256
                } else {
                    IntegrityKind::NoIntegrity
                },
            )
            &&& o.integrity == IntegrityKind::Sha256 ==> spec_integrity_failure(
                magic,
                b,
                spec_written_header(o),
                ds,
                ds[0],
                spec_find_section(ds, SectionKind::Integrity).unwrap(),
            ) is None
        }),
{
    let b = spec_container_bytes(magic, section, o);
    let h = spec_written_header(o);
    let ds = spec_written_descriptors(section.len(), o);
    lemma_layout(magic, section, o);
    let start = spec_data_start(o) as int;
    if o.integrity == IntegrityKind::Sha256 {
        let j = ds.len() - 1;
        lemma_find_at(ds, SectionKind::Integrity, j);
        let i = ds[j];
        assert(i.offset == start + section.len() + spec_metadata_len(o));
        assert(section_data(b, ds[0]) == section);
        assert(section_data(b, i) == spec_integrity_digest(magic, h, ds, section));
    } else {
        lemma_find_absent(ds, SectionKind::Integrity);
    }
}

/// The metadata a read of a written container returns.
proof fn lemma_metadata_part(magic: Seq<u8>, section: Seq<u8>, o: WriteOptionsView, load: bool)
    requires
        magic.len() == 4,
        o.package_id.len() == 4,
        spec_write_fits(section.len(), o),
    ensures
        spec_metadata(
            spec_container_bytes(magic, section, o),
            spec_written_descriptors(section.len(), o),
            load,
        ) == Ok::<Option<Seq<u8>>, DecodeFailure>(
            if load {
                o.metadata
            } else {
                None
            },
        ),
{
    let b = spec_container_bytes(magic, section, o);
    let ds = spec_written_descriptors(section.len(), o);
    lemma_layout(magic, section, o);
    if o.metadata is Some {
        lemma_find_at(ds, SectionKind::Metadata, 1);
        let mdesc = ds[1];
        assert(section_data(b, mdesc) == spec_metadata_bytes(o));
    } else {
        lemma_find_absent(ds, SectionKind::Metadata);
    }
}

proof fn lemma_read_from_parts(
    m: Seq<u8>,
    b: Seq<u8>,
    h: HeaderView,
    ds: Seq<SectionDescriptor>,
    opts: ReadOptions,
    integrity: IntegrityKind,
    metadata: Option<Seq<u8>>,
)
    requires
        spec_parse_header(m, b) == Ok::<HeaderView, DecodeFailure>(h),
        spec_parse_sections(b, h) == Ok::<Seq<SectionDescriptor>, DecodeFailure>(ds),
        ds.len() > 0,
        spec_payload_descriptor(b, ds) == Ok::<SectionDescriptor, DecodeFailure>(ds[0]),
        spec_integrity_kind(ds) == Ok::<IntegrityKind, DecodeFailure>(integrity),
        integrity == IntegrityKind::Sha256 ==> spec_integrity_failure(
            m,
            b,
            h,
            ds,
            ds[0],
            spec_find_section(ds, SectionKind::Integrity).unwrap(),
        ) is None,
        spec_metadata(b, ds, opts.load_metadata) == Ok::<Option<Seq<u8>>, DecodeFailure>(metadata),
    ensures
        spec_read_package(m, b, opts) == match spec_decompress(section_data(b, ds[0]), h.compression) {
            None => Err(DecodeFailure::Compression),
            Some(payload) => Ok::<PackageView, DecodeFailure>(
                PackageView {
                    header: h,
                    sections: ds,
                    payload,
                    metadata,
                    integrity,
                    integrity_verified: opts.verify_integrity && integrity == IntegrityKind::Sha256,
                },
            ),
        },
        spec_read_payload(m, b) == match spec_decompress(section_data(b, ds[0]), h.compression) {
            None => Err(DecodeFailure::Compression),
            Some(payload) => Ok::<Seq<u8>, DecodeFailure>(payload),
        },
{
}

/// Reading a container written around payload section `section` under `o` gives
/// back the written header and table, the decoded section as payload, the
/// metadata when it is asked for, and an integrity check that passes when it runs;
/// it is refused only when the stored section does not decode.
pub proof fn lemma_read_after_write(
    magic: [u8; 4],
    section: Seq<u8>,
    o: WriteOptionsView,
    opts: ReadOptions,
)
    requires
        o.package_id.len() == 4,
        spec_write_fits(section.len(), o),
    ensures
        spec_read_package(magic@, spec_container_bytes(magic@, section, o), opts) == match spec_decompress(
            section,
            o.compression,
        ) {
            None => Err(DecodeFailure::Compression),
            Some(payload) => Ok::<PackageView, DecodeFailure>(
                PackageView {
                    header: spec_written_header(o),
                    sections: spec_written_descriptors(section.len(), o),
                    payload,
                    metadata: if opts.load_metadata {
                        o.metadata
                    } else {
                        None
                    },
                    integrity: if o.integrity == IntegrityKind::Sha256 {
                        IntegrityKind::Sha256
                    } else {
                        IntegrityKind::NoIntegrity
                    },
                    integrity_verified: opts.verify_integrity && o.integrity
                        == IntegrityKind::Sha256,
                },
            ),
        },
        spec_read_payload(magic@, spec_container_bytes(magic@, section, o)) == match spec_decompress(
            section,
            o.compression,
        ) {
            None => Err(DecodeFailure::Compression),
            Some(payload) => Ok::<Seq<u8>, DecodeFailure>(payload),
        },
{
    let m = magic@;
    assert(m.len() == 4);
    let b = spec_container_bytes(m, section, o);
    let h = spec_written_header(o);
    let ds = spec_written_descriptors(section.len(), o);
    let integrity = if o.integrity == IntegrityKind::Sha256 {
        IntegrityKind::Sha256
    } else {
        IntegrityKind::NoIntegrity
    };
    let metadata = if opts.load_metadata {
        o.metadata
    } else {
        None
    };
    lemma_header_roundtrip(m, section, o);
    lemma_sections_roundtrip(m, section, o);
    lemma_layout(m, section, o);
    lemma_integrity_part(m, section, o);
    lemma_metadata_part(m, section, o, opts.load_metadata);
    lemma_find_first(ds, SectionKind::Payload);
    assert(section_data(b, ds[0]) == section);
    assert(spec_payload_descriptor(b, ds) == Ok::<SectionDescriptor, DecodeFailure>(ds[0]));
    lemma_read_from_parts(m, b, h, ds, opts, integrity, metadata);
}

/// What a read under `opts` gives back of a container written under `o` for `payload`:
/// the written header and table, the payload, the metadata when it is loaded, and the
/// integrity kind, verified when asked for and present.
pub open spec fn spec_read_back(o: WriteOptionsView, section_len: nat, payload: Seq<u8>, opts: ReadOptions) -> PackageView {
    PackageView {
        header: spec_written_header(o),
        sections: spec_written_descriptors(section_len, o),
        payload,
        metadata: if opts.load_metadata {
            o.metadata
        } else {
            None
        },
        integrity: if o.integrity == IntegrityKind::Sha256 {
            IntegrityKind::Sha256
        } else {
            IntegrityKind::NoIntegrity
        },
        integrity_verified: opts.verify_integrity && o.integrity == IntegrityKind::Sha256,
    }
}

/// A container written for a payload section that decompresses to `payload` reads back,
/// under every read policy, as `spec_read_back`, and its payload read gives `payload`.
pub proof fn lemma_read_back(magic: [u8; 4], section: Seq<u8>, payload: Seq<u8>, o: WriteOptionsView)
    requires
        o.package_id.len() == 4,
        spec_write_fits(section.len(), o),
        spec_decompress(section, o.compression) == Some(payload),
    ensures
        forall|opts: ReadOptions|
            spec_read_package(magic@, spec_container_bytes(magic@, section, o), opts) == Ok::<
                PackageView,
                DecodeFailure,
            >(spec_read_back(o, section.len(), payload, opts)),
        spec_read_payload(magic@, spec_container_bytes(magic@, section, o)) == Ok::<
            Seq<u8>,
            DecodeFailure,
        >(payload),
{
    assert forall|opts: ReadOptions|
        spec_read_package(magic@, spec_container_bytes(magic@, section, o), opts) == Ok::<
            PackageView,
            DecodeFailure,
        >(spec_read_back(o, section.len(), payload, opts)) by {
        lemma_read_after_write(magic, section, o, opts);
    }
    lemma_read_after_write(magic, section, o, ReadOptions { verify_integrity: true, load_metadata: true });
}

/// The header of `b` is read from its first 28 bytes alone.
proof fn lemma_header_local(magic: Seq<u8>, b: Seq<u8>, c: Seq<u8>)
    requires
        b.len() == c.len(),
        b.len() >= 28,
        forall|i: int| 0 <= i < 28 ==> b[i] == c[i],
    ensures
        spec_parse_header(magic, b) == spec_parse_header(magic, c),
{
    assert(b.take(4) =~= c.take(4));
    assert(b.subrange(8, 12) =~= c.subrange(8, 12));
    assert(b[4] == c[4] && b[5] == c[5] && b[6] == c[6] && b[7] == c[7]);
    assert(b[12] == c[12] && b[13] == c[13]);
    assert(b[16] == c[16] && b[17] == c[17] && b[18] == c[18] && b[19] == c[19]);
    assert(b[20] == c[20] && b[21] == c[21] && b[22] == c[22] && b[23] == c[23]);
}

/// The first `n` table entries at `start` are read from the bytes before `start + 24 * n`.
proof fn lemma_entries_local(b: Seq<u8>, c: Seq<u8>, start: int, n: nat)
    requires
        b.len() == c.len(),
        0 <= start,
        forall|i: int| 0 <= i < start + 24 * n ==> b[i] == c[i],
    ensures
        spec_parse_entries(b, start, n) == spec_parse_entries(c, start, n),
    decreases n,
{
    if n > 0 {
        lemma_entries_local(b, c, start, (n - 1) as nat);
        let at = start + 24 * (n - 1);
        assert(b[at] == c[at]);
        assert(b[at + 1] == c[at + 1]);
        assert forall|k: int| 4 <= k < 20 implies #[trigger] b[at + k] == c[at + k] by {}
        assert(spec_descriptor_at(b, at) == spec_descriptor_at(c, at));
    }
}

/// Reading the payload of a written container looks only at its header, its section table
/// and its payload section: the container with anything after the payload section altered
/// (its metadata or its integrity digest), its length kept, still reads back the payload.
pub proof fn lemma_payload_read_ignores_trailer(
    magic: [u8; 4],
    section: Seq<u8>,
    payload: Seq<u8>,
    o: WriteOptionsView,
    altered: Seq<u8>,
)
    requires
        o.package_id.len() == 4,
        spec_write_fits(section.len(), o),
        spec_decompress(section, o.compression) == Some(payload),
        altered.len() == spec_container_bytes(magic@, section, o).len(),
        altered.take((spec_data_start(o) + section.len()) as int) == spec_container_bytes(
            magic@,
            section,
            o,
        ).take((spec_data_start(o) + section.len()) as int),
    ensures
        spec_read_payload(magic@, altered) == Ok::<Seq<u8>, DecodeFailure>(payload),
{
    let m = magic@;
    assert(m.len() == 4);
    let b = spec_container_bytes(m, section, o);
    let k = spec_data_start(o) + section.len();
    let h = spec_written_header(o);
    let ds = spec_written_descriptors(section.len(), o);
    assert(k <= b.len()) by {
        lemma_layout(m, section, o);
    }
    assert forall|i: int| 0 <= i < k implies #[trigger] b[i] == altered[i] by {
        assert(b.take(k as int)[i] == b[i]);
        assert(altered.take(k as int)[i] == altered[i]);
    }
    assert(spec_parse_header(m, altered) == Ok::<HeaderView, DecodeFailure>(h)) by {
        lemma_header_roundtrip(m, section, o);
        lemma_header_local(m, b, altered);
    }
    assert(spec_parse_sections(altered, h) == Ok::<Seq<SectionDescriptor>, DecodeFailure>(ds)) by {
        lemma_sections_roundtrip(m, section, o);
        lemma_entries_local(b, altered, 28, h.section_count as nat);
    }
    assert(spec_payload_descriptor(altered, ds) == Ok::<SectionDescriptor, DecodeFailure>(ds[0])
        && section_data(altered, ds[0]) == section) by {
        lemma_layout(m, section, o);
        lemma_find_first(ds, SectionKind::Payload);
        assert(section_data(altered, ds[0]) =~= section_data(b, ds[0]));
    }
}

/// Reading the payload never checks the integrity section: a written container whose
/// integrity digest bytes (its last `spec_integrity_len` bytes) were altered afterwards
/// still reads back the payload it was written for.
pub proof fn lemma_payload_read_ignores_integrity(
    magic: [u8; 4],
    section: Seq<u8>,
    payload: Seq<u8>,
    o: WriteOptionsView,
    altered: Seq<u8>,
)
    requires
        o.package_id.len() == 4,
        spec_write_fits(section.len(), o),
        spec_decompress(section, o.compression) == Some(payload),
        altered.len() == spec_container_bytes(magic@, section, o).len(),
        forall|i: int|
            0 <= i < altered.len() - spec_integrity_len(o) ==> altered[i]
                == #[trigger] spec_container_bytes(magic@, section, o)[i],
    ensures
        spec_read_payload(magic@, altered) == Ok::<Seq<u8>, DecodeFailure>(payload),
{
    let m = magic@;
    assert(m.len() == 4);
    let b = spec_container_bytes(m, section, o);
    let k = (spec_data_start(o) + section.len()) as int;
    lemma_layout(m, section, o);
    assert(altered.take(k) =~= b.take(k)) by {
        assert forall|i: int| 0 <= i < k implies altered.take(k)[i] == b.take(k)[i] by {
            assert(b[i] == altered[i]);
        }
    }
    lemma_payload_read_ignores_trailer(magic, section, payload, o, altered);
}

} // verus!
