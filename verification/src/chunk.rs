//! Empty chunk data for virtual worlds: an all-air ChunkData packet built as
//! raw bytes in a [`PacketFrame`]. The proxy never decodes ChunkData, so
//! its packet IDs are fixed here per version.

use vstd::prelude::*;
use vstd::string::StringSliceAdditionalSpecFns;

use crate::codec::raw::{push_all, write_u16, write_u32, write_u64, write_var};
use crate::codec::spec::{i32_bytes, u16_bytes, u32_bytes, u64_bytes, varint_bytes};
use crate::error::{ProtocolError, ProtocolResult};
use crate::io::compression::{zlib_compress, zlib_compressed};
use crate::io::PacketFrame;
use crate::version::{
    supported_versions, ProtocolVersion, V1_13, V1_14, V1_15, V1_16, V1_16_2, V1_17, V1_18, V1_19, V1_19_1, V1_19_3,
    V1_19_4, V1_20_2, V1_20_5, V1_21_2, V1_21_5, V1_21_9, V1_8, V1_9,
};

verus! {

/// `n` zero bytes.
pub open spec fn zeros(n: nat) -> Seq<u8> {
    Seq::new(n, |_i: int| 0u8)
}

/// The ChunkData packet ID for protocol `v`.
pub open spec fn chunk_packet_id(v: i32) -> i32 {
    if V1_14 <= v < V1_15 {
        0x21
    } else if V1_15 <= v < V1_16 {
        0x22
    } else if V1_16 <= v < V1_16_2 {
        0x21
    } else if V1_16_2 <= v < V1_17 {
        0x20
    } else if V1_17 <= v < V1_19 {
        0x22
    } else if V1_19 <= v < V1_19_1 {
        0x1F
    } else if V1_19_1 <= v < V1_19_3 {
        0x21
    } else if V1_19_3 <= v < V1_19_4 {
        0x20
    } else if V1_19_4 <= v < V1_20_2 {
        0x24
    } else if V1_20_2 <= v < V1_20_5 {
        0x25
    } else if V1_20_5 <= v < V1_21_2 {
        0x27
    } else if V1_21_2 <= v < V1_21_5 {
        0x28
    } else if V1_21_5 <= v < V1_21_9 {
        0x27
    } else if v >= V1_21_9 {
        0x2C
    } else if v >= V1_13 {
        0x22
    } else if v >= V1_9 {
        0x20
    } else {
        0x21
    }
}

/// The length of an empty chunk section: block states (non-air count,
/// single-value palette of air) and biomes (single-value palette of
/// plains), all zero bytes; before 1.21.5 each palette is followed by an
/// empty data array length.
pub open spec fn section_len(v: i32) -> nat {
    if v < V1_21_5 {
        8
    } else {
        6
    }
}

/// The zlib stream of 256 biome bytes, as the 1.7 chunk layout carries it.
pub open spec fn legacy_biomes() -> Seq<u8> {
    zlib_compressed(zeros(256), 6)
}

/// The body of an empty chunk before 1.14 (after the coordinates): the
/// ground-up flag, an empty bit mask and 256 biome bytes, zlib-compressed in
/// 1.7, raw afterwards.
pub open spec fn legacy_chunk_bytes(v: i32) -> Seq<u8> {
    if v < V1_8 {
        seq![1u8] + u16_bytes(0) + u16_bytes(0) + i32_bytes(legacy_biomes().len() as i32)
            + legacy_biomes()
    } else if v < V1_9 {
        seq![1u8] + u16_bytes(0) + varint_bytes(256) + zeros(256)
    } else {
        seq![1u8] + varint_bytes(0) + varint_bytes(256) + zeros(256) + varint_bytes(0)
    }
}

/// An NBT long array tag named `name` with `count` zero longs.
pub open spec fn long_array_bytes(name: Seq<u8>, count: i32) -> Seq<u8> {
    seq![0x0Cu8] + u16_bytes(name.len() as u16) + name + i32_bytes(count) + zeros(
        if count > 0 {
            8 * count as nat
        } else {
            0
        },
    )
}

/// Empty heightmaps as an NBT compound: a name before 1.20.2 (network NBT
/// has none since), then MOTION_BLOCKING and WORLD_SURFACE of 37 longs.
pub open spec fn heightmaps_nbt_bytes(v: i32) -> Seq<u8> {
    seq![0x0Au8] + (if v < V1_20_2 {
        u16_bytes(0)
    } else {
        Seq::empty()
    }) + long_array_bytes("MOTION_BLOCKING".spec_bytes(), 37) + long_array_bytes(
        "WORLD_SURFACE".spec_bytes(),
        37,
    ) + seq![0u8]
}

/// Empty heightmaps as a map (1.21.5+): WORLD_SURFACE, MOTION_BLOCKING and
/// MOTION_BLOCKING_NO_LEAVES, each 37 zero longs.
pub open spec fn heightmaps_map_bytes() -> Seq<u8> {
    varint_bytes(3) + varint_bytes(1) + varint_bytes(37) + zeros(296) + varint_bytes(4)
        + varint_bytes(37) + zeros(296) + varint_bytes(5) + varint_bytes(37) + zeros(296)
}

/// Empty heightmaps for protocol `v`.
pub open spec fn heightmaps_bytes(v: i32) -> Seq<u8> {
    if v < V1_21_5 {
        heightmaps_nbt_bytes(v)
    } else {
        heightmaps_map_bytes()
    }
}

/// The number of longs a light mask over `n` sections (and the two edge
/// sections) takes.
pub open spec fn light_longs(n: nat) -> nat {
    (n + 2) / 64 + if (n + 2) % 64 == 0 {
        0nat
    } else {
        1nat
    }
}

/// The first long of a full light mask over `n` sections and the two edges.
pub open spec fn light_mask(n: nat) -> u64 {
    if n + 2 >= 64 {
        0xFFFF_FFFF_FFFF_FFFFu64
    } else {
        ((1u64 << ((n + 2) as u64)) - 1) as u64
    }
}

/// Light data where every section is empty: empty sky and block light
/// masks, full "empty" masks, and no light arrays.
pub open spec fn light_bytes(n: nat) -> Seq<u8> {
    let k = light_longs(n);
    let empty = varint_bytes(k as i32) + zeros(8 * k);
    let full = varint_bytes(k as i32) + u64_bytes(light_mask(n)) + zeros(8 * (k - 1) as nat);
    empty + empty + full + full + varint_bytes(0) + varint_bytes(0)
}

/// The payload of an all-air chunk at (`x`, `z`) with `n` sections: the
/// coordinates, then the legacy body before 1.14; from 1.14, heightmaps, the
/// sections with their length, no block entities, and light data from 1.18.
pub open spec fn chunk_payload(x: i32, z: i32, n: nat, v: i32) -> Seq<u8> {
    i32_bytes(x) + i32_bytes(z) + if v < V1_14 {
        legacy_chunk_bytes(v)
    } else {
        heightmaps_bytes(v) + varint_bytes((n * section_len(v)) as i32) + zeros(n * section_len(v))
            + varint_bytes(0) + if v >= V1_18 {
            light_bytes(n)
        } else {
            Seq::empty()
        }
    }
}

proof fn lemma_zero_bytes()
    ensures
        u16_bytes(0) == zeros(2),
        u64_bytes(0) == zeros(8),
        varint_bytes(0) == zeros(1),
{
    assert((0u16 >> 8u16) as u8 == 0u8 && 0u16 as u8 == 0u8) by (bit_vector);
    assert((0u32 >> 24u32) as u8 == 0u8 && (0u32 >> 16u32) as u8 == 0u8 && (0u32 >> 8u32) as u8
        == 0u8 && 0u32 as u8 == 0u8) by (bit_vector);
    assert((0u64 >> 32u64) as u32 == 0u32 && 0u64 as u32 == 0u32) by (bit_vector);
    assert(u16_bytes(0) =~= zeros(2));
    assert(u32_bytes(0) =~= zeros(4));
    assert(u64_bytes(0) =~= zeros(8));
    assert(varint_bytes(0) =~= zeros(1));
}

proof fn lemma_zeros_add(a: nat, b: nat)
    ensures
        zeros(a) + zeros(b) == zeros(a + b),
{
    assert(zeros(a) + zeros(b) =~= zeros(a + b));
}

/// Appends `n` zero bytes.
fn push_zeros(buf: &mut Vec<u8>, n: usize)
    ensures
        final(buf)@ == old(buf)@ + zeros(n as nat),
{
    let mut i: usize = 0;
    while i < n
        invariant
            i <= n,
            buf@ == old(buf)@ + zeros(i as nat),
        decreases n - i,
    {
        buf.push(0u8);
        proof {
            lemma_zeros_add(i as nat, 1);
            assert(zeros(1) =~= seq![0u8]);
        }
        i = i + 1;
    }
}

/// The ChunkData packet ID for `version`.
pub fn chunk_data_packet_id(version: ProtocolVersion) -> (id: i32)
    ensures
        id == chunk_packet_id(version.0),
{
    let v = version.0;
    if V1_14 <= v && v < V1_15 {
        0x21
    } else if V1_15 <= v && v < V1_16 {
        0x22
    } else if V1_16 <= v && v < V1_16_2 {
        0x21
    } else if V1_16_2 <= v && v < V1_17 {
        0x20
    } else if V1_17 <= v && v < V1_19 {
        0x22
    } else if V1_19 <= v && v < V1_19_1 {
        0x1F
    } else if V1_19_1 <= v && v < V1_19_3 {
        0x21
    } else if V1_19_3 <= v && v < V1_19_4 {
        0x20
    } else if V1_19_4 <= v && v < V1_20_2 {
        0x24
    } else if V1_20_2 <= v && v < V1_20_5 {
        0x25
    } else if V1_20_5 <= v && v < V1_21_2 {
        0x27
    } else if V1_21_2 <= v && v < V1_21_5 {
        0x28
    } else if V1_21_5 <= v && v < V1_21_9 {
        0x27
    } else if v >= V1_21_9 {
        0x2C
    } else if v >= V1_13 {
        0x22
    } else if v >= V1_9 {
        0x20
    } else {
        0x21
    }
}

/// Encodes a `VarInt` directly into `buf`.
pub fn write_varint(buf: &mut Vec<u8>, value: i32)
    ensures
        final(buf)@ == old(buf)@ + varint_bytes(value),
{
    write_var(buf, value as u32 as u64);
}

/// Appends an empty chunk section.
pub fn encode_empty_section(buf: &mut Vec<u8>, version: ProtocolVersion)
    ensures
        final(buf)@ == old(buf)@ + zeros(section_len(version.0)),
{
    let needs_data_length = version.less_than(ProtocolVersion(V1_21_5));
    // Block states: non-air count, single-value palette (air).
    write_u16(buf, 0);
    buf.push(0u8);
    write_varint(buf, 0);
    if needs_data_length {
        write_varint(buf, 0);
    }
    // Biomes: single-value palette (plains).
    buf.push(0u8);
    write_varint(buf, 0);
    if needs_data_length {
        write_varint(buf, 0);
    }
    proof {
        lemma_zero_bytes();
        assert(buf@ =~= old(buf)@ + zeros(section_len(version.0)));
    }
}

/// `num_sections` empty chunk sections.
pub fn encode_empty_chunk_sections(num_sections: usize, version: ProtocolVersion) -> (data: Vec<u8>)
    ensures
        data@ == zeros(num_sections as nat * section_len(version.0)),
{
    let mut buf: Vec<u8> = Vec::new();
    let mut i: usize = 0;
    while i < num_sections
        invariant
            i <= num_sections,
            buf@ == zeros(i as nat * section_len(version.0)),
        decreases num_sections - i,
    {
        encode_empty_section(&mut buf, version);
        proof {
            lemma_zeros_add(i as nat * section_len(version.0), section_len(version.0));
            assert(i as nat * section_len(version.0) + section_len(version.0) == (i + 1) as nat
                * section_len(version.0)) by (nonlinear_arith);
        }
        i = i + 1;
    }
    buf
}

/// Appends an NBT long array named `name` holding `count` zero longs.
fn encode_nbt_long_array(buf: &mut Vec<u8>, name: &str, count: i32)
    ensures
        final(buf)@ == old(buf)@ + long_array_bytes(name.spec_bytes(), count),
{
    buf.push(0x0Cu8);
    let name_bytes = name.as_bytes();
    write_u16(buf, name_bytes.len() as u16);
    push_all(buf, name_bytes);
    write_u32(buf, count as u32);
    let ghost mid = buf@;
    let mut k: i32 = 0;
    while k < count
        invariant
            0 <= k,
            count > 0 ==> k <= count,
            count <= 0 ==> k == 0,
            buf@ == mid + zeros(8 * k as nat),
        decreases count - k,
    {
        push_zeros(buf, 8);
        proof {
            lemma_zeros_add(8 * k as nat, 8);
        }
        k = k + 1;
    }
    assert(buf@ =~= old(buf)@ + long_array_bytes(name.spec_bytes(), count));
}

/// Appends empty heightmaps as an NBT compound.
pub fn encode_empty_heightmaps_nbt(buf: &mut Vec<u8>, version: ProtocolVersion)
    ensures
        final(buf)@ == old(buf)@ + heightmaps_nbt_bytes(version.0),
{
    buf.push(0x0Au8);
    if version.less_than(ProtocolVersion(V1_20_2)) {
        write_u16(buf, 0);
    }
    encode_nbt_long_array(buf, "MOTION_BLOCKING", 37);
    encode_nbt_long_array(buf, "WORLD_SURFACE", 37);
    buf.push(0u8);
    assert(buf@ =~= old(buf)@ + heightmaps_nbt_bytes(version.0));
}

/// Appends empty heightmaps in the map format of 1.21.5+.
fn encode_empty_heightmaps_map(buf: &mut Vec<u8>)
    ensures
        final(buf)@ == old(buf)@ + heightmaps_map_bytes(),
{
    write_varint(buf, 3);
    write_varint(buf, 1);
    write_varint(buf, 37);
    push_zeros(buf, 296);
    write_varint(buf, 4);
    write_varint(buf, 37);
    push_zeros(buf, 296);
    write_varint(buf, 5);
    write_varint(buf, 37);
    push_zeros(buf, 296);
    assert(buf@ =~= old(buf)@ + heightmaps_map_bytes());
}

/// Appends empty heightmaps for `version`.
fn encode_empty_heightmaps(buf: &mut Vec<u8>, version: ProtocolVersion)
    ensures
        final(buf)@ == old(buf)@ + heightmaps_bytes(version.0),
{
    if version.less_than(ProtocolVersion(V1_21_5)) {
        encode_empty_heightmaps_nbt(buf, version);
    } else {
        encode_empty_heightmaps_map(buf);
    }
}

/// The number of longs and the first long of a full light mask over
/// `num_sections` sections and the two edges.
fn light_layout(num_sections: usize) -> (r: (usize, u64))
    requires
        num_sections + 2 <= usize::MAX,
    ensures
        r.0 == light_longs(num_sections as nat),
        r.1 == light_mask(num_sections as nat),
        1 <= r.0,
        8 * r.0 <= usize::MAX,
{
    let total_bits = num_sections + 2;
    let num_longs: usize = total_bits / 64 + if total_bits % 64 == 0 {
        0
    } else {
        1
    };
    proof {
        assert(total_bits / 64 <= usize::MAX / 64) by (nonlinear_arith)
            requires
                total_bits <= usize::MAX,
        ;
        assert(8 * (usize::MAX / 64 + 1) <= usize::MAX) by (nonlinear_arith);
        assert(total_bits >= 2);
        assert(total_bits < 64 ==> total_bits / 64 == 0 && total_bits % 64 != 0) by (nonlinear_arith)
            requires
                total_bits >= 2,
        ;
        assert(total_bits >= 64 ==> total_bits / 64 >= 1) by (nonlinear_arith);
    }
    let all_set: u64 = if total_bits >= 64 {
        0xFFFF_FFFF_FFFF_FFFFu64
    } else {
        let t = total_bits as u64;
        assert(t < 64 ==> (1u64 << t) >= 1) by (bit_vector);
        (1u64 << t) - 1
    };
    (num_longs, all_set)
}

/// Appends light data marking all `num_sections` sections (and the two
/// edge sections) empty.
#[verifier::spinoff_prover]
#[verifier::rlimit(30)]
fn encode_light_data(buf: &mut Vec<u8>, num_sections: usize)
    requires
        num_sections + 2 <= usize::MAX,
    ensures
        final(buf)@ == old(buf)@ + light_bytes(num_sections as nat),
{
    let (num_longs, all_set) = light_layout(num_sections);
    let count = num_longs as i32;
    let ghost k = light_longs(num_sections as nat);
    let ghost empty = varint_bytes(k as i32) + zeros(8 * k);
    let ghost full = varint_bytes(k as i32) + u64_bytes(light_mask(num_sections as nat)) + zeros(
        8 * (k - 1) as nat,
    );
    // Sky and block light masks: nothing set.
    write_varint(buf, count);
    push_zeros(buf, 8 * num_longs);
    write_varint(buf, count);
    push_zeros(buf, 8 * num_longs);
    assert(buf@ =~= old(buf)@ + empty + empty);
    let ghost two = buf@;
    // Empty sky and block light masks: everything set.
    write_varint(buf, count);
    write_u64(buf, all_set);
    push_zeros(buf, 8 * (num_longs - 1));
    write_varint(buf, count);
    write_u64(buf, all_set);
    push_zeros(buf, 8 * (num_longs - 1));
    assert(buf@ =~= two + full + full);
    // No light arrays.
    write_varint(buf, 0);
    write_varint(buf, 0);
    assert(buf@ =~= old(buf)@ + light_bytes(num_sections as nat));
}

/// Appends the body of an empty chunk before 1.14.
fn build_pre_1_14_empty_chunk(buf: &mut Vec<u8>, version: ProtocolVersion)
    ensures
        final(buf)@ == old(buf)@ + legacy_chunk_bytes(version.0),
{
    buf.push(1u8);
    if version.less_than(ProtocolVersion(V1_8)) {
        write_u16(buf, 0);
        write_u16(buf, 0);
        let mut biomes: Vec<u8> = Vec::new();
        push_zeros(&mut biomes, 256);
        let compressed = zlib_compress(biomes.as_slice(), 6).unwrap();
        write_u32(buf, compressed.len() as i32 as u32);
        push_all(buf, compressed.as_slice());
        assert(buf@ =~= old(buf)@ + legacy_chunk_bytes(version.0));
    } else if version.less_than(ProtocolVersion(V1_9)) {
        write_u16(buf, 0);
        write_varint(buf, 256);
        push_zeros(buf, 256);
        assert(buf@ =~= old(buf)@ + legacy_chunk_bytes(version.0));
    } else {
        write_varint(buf, 0);
        write_varint(buf, 256);
        push_zeros(buf, 256);
        write_varint(buf, 0);
        assert(buf@ =~= old(buf)@ + legacy_chunk_bytes(version.0));
    }
}

/// The payload of an all-air chunk. Before 1.8 it carries zlib-compressed
/// biomes.
pub fn build_chunk_data_payload(chunk_x: i32, chunk_z: i32, num_sections: usize, version: ProtocolVersion) -> (p: Vec<u8>)
    requires
        version.0 >= V1_18 ==> num_sections + 2 <= usize::MAX,
    ensures
        p@ == chunk_payload(chunk_x, chunk_z, num_sections as nat, version.0),
{
    let mut buf: Vec<u8> = Vec::new();
    write_u32(&mut buf, chunk_x as u32);
    write_u32(&mut buf, chunk_z as u32);
    if version.less_than(ProtocolVersion(V1_14)) {
        build_pre_1_14_empty_chunk(&mut buf, version);
        assert(buf@ =~= chunk_payload(chunk_x, chunk_z, num_sections as nat, version.0));
        return buf;
    }
    let sections = encode_empty_chunk_sections(num_sections, version);
    encode_empty_heightmaps(&mut buf, version);
    write_varint(&mut buf, sections.len() as i32);
    push_all(&mut buf, sections.as_slice());
    write_varint(&mut buf, 0);
    if version.no_less_than(ProtocolVersion(V1_18)) {
        encode_light_data(&mut buf, num_sections);
    }
    assert(buf@ =~= chunk_payload(chunk_x, chunk_z, num_sections as nat, version.0));
    buf
}

/// A complete ChunkData frame for an all-air chunk; it always succeeds.
pub fn build_chunk_data_frame(chunk_x: i32, chunk_z: i32, num_sections: usize, version: ProtocolVersion) -> (res: ProtocolResult<PacketFrame>)
    requires
        version.0 >= V1_18 ==> num_sections + 2 <= usize::MAX,
    ensures
        res matches Ok(f) && f.id == chunk_packet_id(version.0) && f.payload@ == chunk_payload(
            chunk_x,
            chunk_z,
            num_sections as nat,
            version.0,
        ),
{
    let id = chunk_data_packet_id(version);
    let payload = build_chunk_data_payload(chunk_x, chunk_z, num_sections, version);
    Ok(PacketFrame { id, payload })
}

/// The ChunkData packet ID of each supported version, listed in the order
/// of [`supported_versions`]: 1.7-1.8 `0x21`, 1.9-1.12.2 `0x20`, 1.13
/// `0x22`, 1.14 `0x21`, 1.15 `0x22`, 1.16 `0x21`, 1.16.2-1.16.4 `0x20`,
/// 1.17-1.18.2 `0x22`, 1.19 `0x1F`, 1.19.1 `0x21`, 1.19.3 `0x20`,
/// 1.19.4-1.20.1 `0x24`, 1.20.2-1.20.4 `0x25`, 1.20.5-1.21.1 `0x27`,
/// 1.21.2-1.21.4 `0x28`, 1.21.5-1.21.7 `0x27`, 1.21.9 on `0x2C`.
pub open spec fn chunk_ids_by_version() -> Seq<i32> {
    seq![0x21, 0x21, 0x21, 0x20, 0x20, 0x20, 0x20, 0x20, 0x20, 0x22, 0x21, 0x22, 0x21, 0x20, 0x20, 0x22, 0x22, 0x22, 0x1F, 0x21, 0x20, 0x24, 0x24, 0x25, 0x25, 0x27, 0x27, 0x28, 0x28, 0x27, 0x27, 0x27, 0x2C, 0x2C]
}

/// Each supported version gets the ChunkData ID that the version table
/// lists for it.
pub proof fn law_chunk_packet_ids()
    ensures
        chunk_ids_by_version().len() == supported_versions().len(),
        forall|i: int|
            0 <= i < supported_versions().len() ==> chunk_packet_id(#[trigger] supported_versions()[i].0)
                == chunk_ids_by_version()[i],
{
    let vs = supported_versions();
    let ids = chunk_ids_by_version();
    assert forall|i: int| 0 <= i < vs.len() implies chunk_packet_id(#[trigger] vs[i].0) == ids[i] by {}
}

} // verus!
