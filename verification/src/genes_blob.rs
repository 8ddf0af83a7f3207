//! The bytes that stand for a cell's genes in a single column.
//!
//! A cell owns its genes, and a cell row holds them whole, so that saving or
//! reading a cell is one statement. The column is a byte string laid out as
//!
//! ```text
//! blob   := count record*        count: number of records, 8 bytes
//! record := id length text       id: 4 bytes, two's complement
//!                                length: number of bytes of text, 8 bytes
//!                                text: the sequence in UTF-8
//! ```
//!
//! with every number big-endian. The layout is prefix-free: a byte string is
//! the blob of at most one collection of genes, and decoding finds it.

use vstd::prelude::*;
use vstd::arithmetic::div_mod::lemma_fundamental_div_mod_converse;
use vstd::slice::{slice_subrange, slice_to_vec};
use vstd::utf8::{encode_utf8, encode_utf8_decode_utf8, encode_utf8_valid_utf8, valid_utf8};
use crate::gene::{gene_views, Gene, GeneView};

verus! {

/// The four big-endian bytes of `value`, which is below 2^32.
pub open spec fn u32_be(value: nat) -> Seq<u8> {
    seq![
        (value / 0x100_0000 % 256) as u8,
        (value / 0x1_0000 % 256) as u8,
        (value / 0x100 % 256) as u8,
        (value % 256) as u8,
    ]
}

/// The number that four big-endian bytes stand for.
pub open spec fn be_u32(bytes: Seq<u8>) -> nat {
    (bytes[0] as nat) * 0x100_0000 + (bytes[1] as nat) * 0x1_0000 + (bytes[2] as nat) * 0x100 + (
    bytes[3] as nat)
}

/// The eight big-endian bytes of `value`, which is below 2^64.
pub open spec fn u64_be(value: nat) -> Seq<u8> {
    u32_be(value / 0x1_0000_0000) + u32_be(value % 0x1_0000_0000)
}

/// The number that eight big-endian bytes stand for.
pub open spec fn be_u64(bytes: Seq<u8>) -> nat {
    be_u32(bytes.subrange(0, 4)) * 0x1_0000_0000 + be_u32(bytes.subrange(4, 8))
}

/// An identity as an unsigned number: its two's complement in 32 bits.
pub open spec fn id_code(id: i32) -> nat {
    if id < 0 {
        (id + 0x1_0000_0000) as nat
    } else {
        id as nat
    }
}

/// The identity that an unsigned number below 2^32 stands for.
pub open spec fn code_id(code: nat) -> i32 {
    if code >= 0x8000_0000 {
        (code - 0x1_0000_0000) as i32
    } else {
        code as i32
    }
}

/// One gene in the blob: identity, length of the text, text.
pub open spec fn gene_record(gene: GeneView) -> Seq<u8> {
    u32_be(id_code(gene.id)) + u64_be(encode_utf8(gene.sequence).len()) + encode_utf8(
        gene.sequence,
    )
}

/// The records of `genes`, one after the other.
pub open spec fn gene_records(genes: Seq<GeneView>) -> Seq<u8>
    decreases genes.len(),
{
    if genes.len() == 0 {
        Seq::empty()
    } else {
        gene_record(genes.first()) + gene_records(genes.drop_first())
    }
}

/// The blob of `genes`: their number, then their records.
pub open spec fn genes_blob(genes: Seq<GeneView>) -> Seq<u8> {
    u64_be(genes.len()) + gene_records(genes)
}

/// The numbers of `genes` fit their fields: fewer than 2^64 genes, each with
/// a text of fewer than 2^64 bytes. Every collection that fits in memory
/// does.
pub open spec fn encodable(genes: Seq<GeneView>) -> bool {
    &&& genes.len() <= u64::MAX
    &&& forall|i: int|
        0 <= i < genes.len() ==> encode_utf8((#[trigger] genes[i]).sequence).len() <= u64::MAX
}

/// Whether `bytes` is the blob of some collection of genes.
pub open spec fn is_genes_blob(bytes: Seq<u8>) -> bool {
    exists|genes: Seq<GeneView>| encodable(genes) && #[trigger] genes_blob(genes) == bytes
}

/// A number below 2^32 is read back from its four bytes.
proof fn lemma_u32_be(value: nat)
    requires
        value <= u32::MAX,
    ensures
        u32_be(value).len() == 4,
        be_u32(u32_be(value)) == value,
{
}

/// Four bytes are the four bytes of the number they stand for.
proof fn lemma_be_u32(bytes: Seq<u8>)
    requires
        bytes.len() == 4,
    ensures
        be_u32(bytes) <= u32::MAX,
        u32_be(be_u32(bytes)) == bytes,
{
    let b0 = bytes[0] as int;
    let b1 = bytes[1] as int;
    let b2 = bytes[2] as int;
    let b3 = bytes[3] as int;
    let value = be_u32(bytes) as int;
    lemma_fundamental_div_mod_converse(value, 0x100_0000, b0, b1 * 0x1_0000 + b2 * 0x100 + b3);
    lemma_fundamental_div_mod_converse(b0, 256, 0, b0);
    lemma_fundamental_div_mod_converse(value, 0x1_0000, b0 * 0x100 + b1, b2 * 0x100 + b3);
    lemma_fundamental_div_mod_converse(b0 * 0x100 + b1, 256, b0, b1);
    lemma_fundamental_div_mod_converse(value, 0x100, b0 * 0x1_0000 + b1 * 0x100 + b2, b3);
    lemma_fundamental_div_mod_converse(b0 * 0x1_0000 + b1 * 0x100 + b2, 256, b0 * 0x100 + b1, b2);
    assert(u32_be(be_u32(bytes)) =~= bytes);
}

/// A number below 2^64 is read back from its eight bytes.
proof fn lemma_u64_be(value: nat)
    requires
        value <= u64::MAX,
    ensures
        u64_be(value).len() == 8,
        be_u64(u64_be(value)) == value,
{
    let high = value / 0x1_0000_0000;
    let low = value % 0x1_0000_0000;
    lemma_u32_be(high);
    lemma_u32_be(low);
    assert(u64_be(value).subrange(0, 4) =~= u32_be(high));
    assert(u64_be(value).subrange(4, 8) =~= u32_be(low));
}

/// Eight bytes are the eight bytes of the number they stand for.
proof fn lemma_be_u64(bytes: Seq<u8>)
    requires
        bytes.len() == 8,
    ensures
        be_u64(bytes) <= u64::MAX,
        u64_be(be_u64(bytes)) == bytes,
{
    let high = bytes.subrange(0, 4);
    let low = bytes.subrange(4, 8);
    lemma_be_u32(high);
    lemma_be_u32(low);
    assert(be_u64(bytes) / 0x1_0000_0000 == be_u32(high));
    assert(be_u64(bytes) % 0x1_0000_0000 == be_u32(low));
    assert(u64_be(be_u64(bytes)) =~= bytes);
}

/// An identity is read back from its code.
proof fn lemma_id_code(id: i32)
    ensures
        id_code(id) <= u32::MAX,
        code_id(id_code(id)) == id,
{
}

/// A number below 2^32 is the code of the identity it stands for.
proof fn lemma_code_id(code: nat)
    requires
        code <= u32::MAX,
    ensures
        id_code(code_id(code)) == code,
{
}

/// The records of a concatenation are the concatenation of the records.
proof fn lemma_records_concat(left: Seq<GeneView>, right: Seq<GeneView>)
    ensures
        gene_records(left + right) == gene_records(left) + gene_records(right),
    decreases left.len(),
{
    if left.len() > 0 {
        assert((left + right).drop_first() =~= left.drop_first() + right);
        lemma_records_concat(left.drop_first(), right);
    }
}

/// Appending one gene appends its record.
proof fn lemma_records_push(genes: Seq<GeneView>, gene: GeneView)
    ensures
        gene_records(genes.push(gene)) == gene_records(genes) + gene_record(gene),
{
    let one = seq![gene];
    assert(one.drop_first() =~= Seq::<GeneView>::empty());
    assert(gene_records(Seq::<GeneView>::empty()) =~= Seq::<u8>::empty());
    assert(gene_records(one) =~= gene_record(gene));
    assert(genes.push(gene) =~= genes + one);
    lemma_records_concat(genes, one);
}

/// A record at the head of a byte string determines the gene and what
/// follows it.
proof fn lemma_record_is_prefix_free(
    left: GeneView,
    left_rest: Seq<u8>,
    right: GeneView,
    right_rest: Seq<u8>,
)
    requires
        encode_utf8(left.sequence).len() <= u64::MAX,
        encode_utf8(right.sequence).len() <= u64::MAX,
        gene_record(left) + left_rest == gene_record(right) + right_rest,
    ensures
        left == right,
        left_rest == right_rest,
{
    lemma_record_layout(left, left_rest);
    lemma_record_layout(right, right_rest);
    assert(left.id == right.id) by {
        lemma_id_code(left.id);
        lemma_id_code(right.id);
        lemma_u32_be(id_code(left.id));
        lemma_u32_be(id_code(right.id));
    }
    assert(encode_utf8(left.sequence).len() == encode_utf8(right.sequence).len()) by {
        lemma_u64_be(encode_utf8(left.sequence).len());
        lemma_u64_be(encode_utf8(right.sequence).len());
    }
    assert(left.sequence == right.sequence) by {
        encode_utf8_decode_utf8(left.sequence);
        encode_utf8_decode_utf8(right.sequence);
    }
}

/// Collections of equal size with equal records are equal.
proof fn lemma_records_are_injective(left: Seq<GeneView>, right: Seq<GeneView>)
    requires
        encodable(left),
        encodable(right),
        left.len() == right.len(),
        gene_records(left) == gene_records(right),
    ensures
        left == right,
    decreases left.len(),
{
    if left.len() > 0 {
        let left_tail = left.drop_first();
        let right_tail = right.drop_first();
        lemma_record_is_prefix_free(
            left.first(),
            gene_records(left_tail),
            right.first(),
            gene_records(right_tail),
        );
        assert(encodable(left_tail));
        assert(encodable(right_tail));
        lemma_records_are_injective(left_tail, right_tail);
        assert(left =~= seq![left.first()] + left_tail);
        assert(right =~= seq![right.first()] + right_tail);
    }
}

/// Two collections with the same blob are the same collection.
pub proof fn law_blob_is_injective(left: Seq<GeneView>, right: Seq<GeneView>)
    requires
        encodable(left),
        encodable(right),
        genes_blob(left) == genes_blob(right),
    ensures
        left == right,
{
    let blob = genes_blob(left);
    lemma_u64_be(left.len());
    lemma_u64_be(right.len());
    assert(blob.subrange(0, 8) =~= u64_be(left.len()));
    assert(blob.subrange(0, 8) =~= u64_be(right.len()));
    assert(blob.subrange(8, blob.len() as int) =~= gene_records(left));
    assert(blob.subrange(8, blob.len() as int) =~= gene_records(right));
    lemma_records_are_injective(left, right);
}

/// The collection that `bytes` is the blob of, where it is one.
pub open spec fn blob_genes(bytes: Seq<u8>) -> Seq<GeneView> {
    choose|genes: Seq<GeneView>| encodable(genes) && #[trigger] genes_blob(genes) == bytes
}

/// Decoding undoes encoding: the blob of a collection is a blob, and the
/// collection it stands for is that one.
pub proof fn law_blob_stands_for_its_genes(genes: Seq<GeneView>)
    requires
        encodable(genes),
    ensures
        is_genes_blob(genes_blob(genes)),
        blob_genes(genes_blob(genes)) == genes,
{
    law_blob_is_injective(blob_genes(genes_blob(genes)), genes);
}

/// How a record lies before what follows it: the identity in bytes 0 to 4,
/// the length of the text in bytes 4 to 12, the text after them, then the
/// rest.
proof fn lemma_record_layout(gene: GeneView, tail: Seq<u8>)
    requires
        encode_utf8(gene.sequence).len() <= u64::MAX,
    ensures
        (gene_record(gene) + tail).len() == 12 + encode_utf8(gene.sequence).len() + tail.len(),
        (gene_record(gene) + tail).subrange(0, 4) == u32_be(id_code(gene.id)),
        (gene_record(gene) + tail).subrange(4, 12) == u64_be(encode_utf8(gene.sequence).len()),
        (gene_record(gene) + tail).subrange(12, 12 + encode_utf8(gene.sequence).len() as int)
            == encode_utf8(gene.sequence),
        (gene_record(gene) + tail).subrange(
            12 + encode_utf8(gene.sequence).len() as int,
            (gene_record(gene) + tail).len() as int,
        ) == tail,
{
    lemma_id_code(gene.id);
    lemma_u32_be(id_code(gene.id));
    lemma_u64_be(encode_utf8(gene.sequence).len());
}

/// A stretch of what follows `pos` is the same stretch of the whole, moved
/// by `pos`.
proof fn lemma_stretch_of_rest(bytes: Seq<u8>, pos: int, from: int, to: int)
    requires
        0 <= pos <= bytes.len(),
        0 <= from <= to <= bytes.len() - pos,
    ensures
        bytes.subrange(pos, bytes.len() as int).subrange(from, to) == bytes.subrange(
            pos + from,
            pos + to,
        ),
{
    assert(bytes.subrange(pos, bytes.len() as int).subrange(from, to) =~= bytes.subrange(
        pos + from,
        pos + to,
    ));
}

/// The length that the record at `pos` announces for its text.
spec fn announced(bytes: Seq<u8>, pos: int) -> int {
    be_u64(bytes.subrange(pos + 4, pos + 12)) as int
}

/// Where the bytes from `pos` on are the records of `genes` from `at` on,
/// the record at `pos` is whole, its text is UTF-8 of the announced length,
/// and the records of the following genes come after it.
proof fn lemma_next_record_is_whole(bytes: Seq<u8>, pos: int, genes: Seq<GeneView>, at: int)
    requires
        encodable(genes),
        0 <= at < genes.len(),
        0 <= pos <= bytes.len(),
        bytes.subrange(pos, bytes.len() as int) == gene_records(genes.skip(at)),
    ensures
        pos + 12 <= bytes.len(),
        announced(bytes, pos) == encode_utf8(genes[at].sequence).len(),
        pos + 12 + announced(bytes, pos) <= bytes.len(),
        valid_utf8(bytes.subrange(pos + 12, pos + 12 + announced(bytes, pos))),
        bytes.subrange(pos + 12 + announced(bytes, pos), bytes.len() as int) == gene_records(
            genes.skip(at + 1),
        ),
{
    let rest = bytes.subrange(pos, bytes.len() as int);
    let gene = genes[at];
    let tail = gene_records(genes.skip(at + 1));
    let length = encode_utf8(gene.sequence).len() as int;
    assert(rest == gene_record(gene) + tail) by {
        assert(genes.skip(at).drop_first() =~= genes.skip(at + 1));
    }
    lemma_record_layout(gene, tail);
    lemma_stretch_of_rest(bytes, pos, 4, 12);
    lemma_stretch_of_rest(bytes, pos, 12, 12 + length);
    lemma_stretch_of_rest(bytes, pos, 12 + length, rest.len() as int);
    lemma_u64_be(length as nat);
    encode_utf8_valid_utf8(gene.sequence);
}

/// Where the bytes from `pos` to `end` hold an identity, the length of a
/// text and that text, they are the record of the gene so described, and
/// the bytes up to `end` hold one more record than those up to `pos`.
proof fn lemma_record_was_read(
    bytes: Seq<u8>,
    pos: int,
    end: int,
    head: Seq<u8>,
    before: Seq<GeneView>,
    gene: GeneView,
)
    requires
        0 <= pos,
        pos + 12 <= end <= bytes.len(),
        bytes.subrange(0, pos) == head + gene_records(before),
        gene.id == code_id(be_u32(bytes.subrange(pos, pos + 4))),
        end - (pos + 12) == be_u64(bytes.subrange(pos + 4, pos + 12)),
        encode_utf8(gene.sequence) == bytes.subrange(pos + 12, end),
    ensures
        bytes.subrange(0, end) == head + gene_records(before.push(gene)),
{
    let id_bytes = bytes.subrange(pos, pos + 4);
    let length_bytes = bytes.subrange(pos + 4, pos + 12);
    let text = bytes.subrange(pos + 12, end);
    lemma_be_u32(id_bytes);
    lemma_code_id(be_u32(id_bytes));
    lemma_be_u64(length_bytes);
    assert(gene_record(gene) == id_bytes + length_bytes + text);
    assert(bytes.subrange(pos, end) =~= id_bytes + length_bytes + text);
    lemma_records_push(before, gene);
    assert(bytes.subrange(0, end) =~= bytes.subrange(0, pos) + bytes.subrange(pos, end));
    assert(head + gene_records(before) + gene_record(gene) =~= head + (gene_records(before)
        + gene_record(gene)));
}

/// An identity as its code.
fn id_to_code(id: i32) -> (code: u32)
    ensures
        code == id_code(id),
{
    if id < 0 {
        (id as i64 + 0x1_0000_0000) as u32
    } else {
        id as u32
    }
}

/// A code as its identity.
fn code_to_id(code: u32) -> (id: i32)
    ensures
        id == code_id(code as nat),
{
    if code >= 0x8000_0000 {
        (code as i64 - 0x1_0000_0000) as i32
    } else {
        code as i32
    }
}

/// Appends the four big-endian bytes of `value`.
fn push_u32(out: &mut Vec<u8>, value: u32)
    ensures
        final(out)@ == old(out)@ + u32_be(value as nat),
{
    out.push((value / 0x100_0000 % 256) as u8);
    out.push((value / 0x1_0000 % 256) as u8);
    out.push((value / 0x100 % 256) as u8);
    out.push((value % 256) as u8);
}

/// Appends the eight big-endian bytes of `value`.
fn push_u64(out: &mut Vec<u8>, value: u64)
    ensures
        final(out)@ == old(out)@ + u64_be(value as nat),
{
    push_u32(out, (value / 0x1_0000_0000) as u32);
    push_u32(out, (value % 0x1_0000_0000) as u32);
    assert(out@ =~= old(out)@ + u64_be(value as nat));
}

/// Appends `bytes`.
fn push_bytes(out: &mut Vec<u8>, bytes: &[u8])
    ensures
        final(out)@ == old(out)@ + bytes@,
{
    let mut at: usize = 0;
    while at < bytes.len()
        invariant
            at <= bytes@.len(),
            out@ == old(out)@ + bytes@.take(at as int),
        decreases bytes@.len() - at,
    {
        out.push(bytes[at]);
        at = at + 1;
    }
}

/// The number in the four bytes from `at` on.
fn read_u32(bytes: &[u8], at: usize) -> (value: u32)
    requires
        at + 4 <= bytes.len(),
    ensures
        value == be_u32(bytes@.subrange(at as int, at + 4)),
{
    let b0 = bytes[at] as u32;
    let b1 = bytes[at + 1] as u32;
    let b2 = bytes[at + 2] as u32;
    let b3 = bytes[at + 3] as u32;
    b0 * 0x100_0000 + b1 * 0x1_0000 + b2 * 0x100 + b3
}

/// The number in the eight bytes from `at` on.
fn read_u64(bytes: &[u8], at: usize) -> (value: u64)
    requires
        at + 8 <= bytes.len(),
    ensures
        value == be_u64(bytes@.subrange(at as int, at + 8)),
{
    let high = read_u32(bytes, at) as u64;
    let low = read_u32(bytes, at + 4) as u64;
    proof {
        let eight = bytes@.subrange(at as int, at + 8);
        assert(eight.subrange(0, 4) =~= bytes@.subrange(at as int, at + 4));
        assert(eight.subrange(4, 8) =~= bytes@.subrange(at + 4, at + 8));
    }
    high * 0x1_0000_0000 + low
}

/// `String::from_utf8` of the standard library: the string whose UTF-8
/// bytes are `bytes`, or `None` where `bytes` is not UTF-8. The contract
/// reads "is UTF-8" as vstd's `valid_utf8` and "its bytes" as vstd's
/// `encode_utf8`; it is taken from the documentation, not proved.
#[verifier::external_body]
fn text_from_utf8(bytes: Vec<u8>) -> (text: Option<String>)
    ensures
        text is Some <==> valid_utf8(bytes@),
        text matches Some(string) ==> encode_utf8(string@) == bytes@,
{
    String::from_utf8(bytes).ok()
}

/// Appends the record of `gene`.
fn push_record(out: &mut Vec<u8>, gene: &Gene)
    ensures
        encode_utf8(gene@.sequence).len() <= u64::MAX,
        final(out)@ == old(out)@ + gene_record(gene@),
{
    let text = gene.sequence.as_str().as_bytes();
    push_u32(out, id_to_code(gene.id));
    push_u64(out, text.len() as u64);
    push_bytes(out, text);
}

/// The blob of `genes`.
pub fn encode_genes(genes: &Vec<Gene>) -> (bytes: Vec<u8>)
    ensures
        encodable(gene_views(genes@)),
        bytes@ == genes_blob(gene_views(genes@)),
{
    let ghost views = gene_views(genes@);
    let mut out: Vec<u8> = Vec::new();
    push_u64(&mut out, genes.len() as u64);
    let mut at: usize = 0;
    while at < genes.len()
        invariant
            views == gene_views(genes@),
            at <= genes@.len(),
            out@ == u64_be(views.len()) + gene_records(views.take(at as int)),
            forall|i: int|
                0 <= i < at ==> encode_utf8((#[trigger] views[i]).sequence).len() <= u64::MAX,
        decreases genes@.len() - at,
    {
        push_record(&mut out, &genes[at]);
        proof {
            let sofar = views.take(at as int);
            let gene = views[at as int];
            lemma_records_push(sofar, gene);
            assert(views.take(at + 1) =~= sofar.push(gene));
            assert(u64_be(views.len()) + gene_records(sofar) + gene_record(gene) =~= u64_be(
                views.len(),
            ) + (gene_records(sofar) + gene_record(gene)));
        }
        at = at + 1;
    }
    assert(views.take(at as int) =~= views);
    out
}

/// The collection that `bytes` is the blob of, or `None` where `bytes` is
/// no blob: cut short, followed by anything, or holding a text that is not
/// UTF-8.
pub fn decode_genes(bytes: &[u8]) -> (decoded: Option<Vec<Gene>>)
    ensures
        decoded matches Some(genes) ==> encodable(gene_views(genes@)) && genes_blob(
            gene_views(genes@),
        ) == bytes@,
        decoded is None ==> !is_genes_blob(bytes@),
{
    let ghost encoded = blob_genes(bytes@);
    let total = bytes.len();
    proof {
        if is_genes_blob(bytes@) {
            lemma_u64_be(encoded.len());
        }
    }
    if total < 8 {
        return None;
    }
    let count = read_u64(bytes, 0);
    let mut genes: Vec<Gene> = Vec::new();
    let mut parsed: u64 = 0;
    let mut pos: usize = 8;
    proof {
        lemma_be_u64(bytes@.subrange(0, 8));
        assert(bytes@.subrange(0, 8) =~= u64_be(count as nat) + gene_records(
            gene_views(genes@),
        ));
        if is_genes_blob(bytes@) {
            assert(encoded.skip(0) =~= encoded);
        }
    }
    while parsed < count
        invariant
            total == bytes@.len(),
            encoded == blob_genes(bytes@),
            8 <= pos <= total,
            parsed <= count,
            genes@.len() == parsed,
            encodable(gene_views(genes@)),
            bytes@.subrange(0, pos as int) == u64_be(count as nat) + gene_records(
                gene_views(genes@),
            ),
            is_genes_blob(bytes@) ==> encoded.len() == count && bytes@.subrange(
                pos as int,
                total as int,
            ) == gene_records(encoded.skip(parsed as int)),
        decreases count - parsed,
    {
        proof {
            if is_genes_blob(bytes@) {
                lemma_next_record_is_whole(bytes@, pos as int, encoded, parsed as int);
            }
        }
        if total - pos < 12 {
            return None;
        }
        let id = code_to_id(read_u32(bytes, pos));
        let length = read_u64(bytes, pos + 4);
        if ((total - pos - 12) as u64) < length {
            return None;
        }
        let start = pos + 12;
        let end = start + length as usize;
        let text = slice_to_vec(slice_subrange(bytes, start, end));
        match text_from_utf8(text) {
            None => return None,
            Some(sequence) => {
                let ghost before = gene_views(genes@);
                let gene = Gene::new(id, sequence);
                proof {
                    lemma_record_was_read(
                        bytes@,
                        pos as int,
                        end as int,
                        u64_be(count as nat),
                        before,
                        gene@,
                    );
                }
                genes.push(gene);
                proof {
                    let after = gene_views(genes@);
                    assert(after =~= before.push(gene@));
                    assert(encodable(after));
                }
                pos = end;
                parsed = parsed + 1;
            },
        }
    }
    if pos != total {
        return None;
    }
    Some(genes)
}

} // verus!
