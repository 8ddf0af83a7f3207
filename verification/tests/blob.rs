use bioengineer::gene::Gene;
use bioengineer::genes_blob::{decode_genes, encode_genes};

fn gene(id: i32, sequence: &str) -> Gene {
    Gene::new(id, String::from(sequence))
}

#[test]
fn blob_of_no_genes_is_a_zero_count() {
    assert_eq!(encode_genes(&Vec::new()), vec![0, 0, 0, 0, 0, 0, 0, 0]);
}

#[test]
fn blob_of_one_gene_is_count_identity_length_text() {
    let blob = encode_genes(&vec![gene(1, "AC")]);
    assert_eq!(
        blob,
        vec![
            0, 0, 0, 0, 0, 0, 0, 1, // one record
            0, 0, 0, 1, // identity 1
            0, 0, 0, 0, 0, 0, 0, 2, // two bytes of text
            b'A', b'C',
        ]
    );
}

#[test]
fn blob_numbers_are_big_endian() {
    let blob = encode_genes(&vec![gene(0x0102_0304, "")]);
    assert_eq!(&blob[8..12], &[1, 2, 3, 4]);
    let long = "A".repeat(0x0001_0203);
    let blob = encode_genes(&vec![gene(0, &long)]);
    assert_eq!(&blob[12..20], &[0, 0, 0, 0, 0, 1, 2, 3]);
    assert_eq!(blob.len(), 20 + 0x0001_0203);
}

#[test]
fn blob_identity_is_twos_complement() {
    assert_eq!(&encode_genes(&vec![gene(-1, "")])[8..12], &[0xff, 0xff, 0xff, 0xff]);
    assert_eq!(&encode_genes(&vec![gene(-2, "")])[8..12], &[0xff, 0xff, 0xff, 0xfe]);
    assert_eq!(&encode_genes(&vec![gene(i32::MIN, "")])[8..12], &[0x80, 0, 0, 0]);
    assert_eq!(&encode_genes(&vec![gene(i32::MAX, "")])[8..12], &[0x7f, 0xff, 0xff, 0xff]);
}

#[test]
fn blob_text_is_utf8_and_its_length_counts_bytes() {
    let blob = encode_genes(&vec![gene(0, "é基")]);
    assert_eq!(&blob[12..20], &[0, 0, 0, 0, 0, 0, 0, 5]);
    assert_eq!(&blob[20..], "é基".as_bytes());
}

#[test]
fn blob_keeps_the_order_of_the_genes() {
    let blob = encode_genes(&vec![gene(2, "T"), gene(1, "A")]);
    assert_eq!(
        blob,
        vec![
            0, 0, 0, 0, 0, 0, 0, 2,
            0, 0, 0, 2, 0, 0, 0, 0, 0, 0, 0, 1, b'T',
            0, 0, 0, 1, 0, 0, 0, 0, 0, 0, 0, 1, b'A',
        ]
    );
}

#[test]
fn decoding_undoes_encoding() {
    let collections = vec![
        Vec::new(),
        vec![gene(1, "ACGT")],
        vec![gene(1, "ACGT"), gene(2, "TTAA")],
        vec![gene(-1, ""), gene(-1, ""), gene(i32::MIN, "é基因"), gene(i32::MAX, "x")],
    ];
    for genes in collections {
        assert_eq!(decode_genes(&encode_genes(&genes)), Some(genes));
    }
}

#[test]
fn decoding_reads_a_blob_written_by_hand() {
    let blob = [
        0, 0, 0, 0, 0, 0, 0, 1,
        0xff, 0xff, 0xff, 0xfd,
        0, 0, 0, 0, 0, 0, 0, 3,
        b'G', b'A', b'T',
    ];
    assert_eq!(decode_genes(&blob), Some(vec![gene(-3, "GAT")]));
}

#[test]
fn decoding_refuses_a_short_count() {
    assert_eq!(decode_genes(&[]), None);
    assert_eq!(decode_genes(&[0, 0, 0, 0, 0, 0, 0]), None);
}

#[test]
fn decoding_refuses_a_missing_record() {
    assert_eq!(decode_genes(&[0, 0, 0, 0, 0, 0, 0, 1]), None);
    let mut blob = encode_genes(&vec![gene(1, "ACGT"), gene(2, "TTAA")]);
    blob[7] = 3;
    assert_eq!(decode_genes(&blob), None);
}

#[test]
fn decoding_refuses_a_record_cut_short() {
    let blob = encode_genes(&vec![gene(1, "ACGT")]);
    for keep in 8..blob.len() {
        assert_eq!(decode_genes(&blob[..keep]), None);
    }
}

#[test]
fn decoding_refuses_a_length_beyond_the_blob() {
    let mut blob = encode_genes(&vec![gene(1, "ACGT")]);
    blob[19] = 5;
    assert_eq!(decode_genes(&blob), None);
    blob[12] = 0xff;
    assert_eq!(decode_genes(&blob), None);
}

#[test]
fn decoding_refuses_bytes_after_the_last_record() {
    let mut blob = encode_genes(&vec![gene(1, "ACGT")]);
    blob.push(0);
    assert_eq!(decode_genes(&blob), None);
    assert_eq!(decode_genes(&[0, 0, 0, 0, 0, 0, 0, 0, 0]), None);
}

#[test]
fn decoding_refuses_text_that_is_not_utf8() {
    let mut blob = encode_genes(&vec![gene(1, "ACGT")]);
    blob[21] = 0xff;
    assert_eq!(decode_genes(&blob), None);
    let truncated_scalar = [
        0, 0, 0, 0, 0, 0, 0, 1,
        0, 0, 0, 1,
        0, 0, 0, 0, 0, 0, 0, 1,
        0xc3,
    ];
    assert_eq!(decode_genes(&truncated_scalar), None);
}

#[test]
fn decoding_turns_text_bytes_into_the_string() {
    let blob = [
        0, 0, 0, 0, 0, 0, 0, 1,
        0, 0, 0, 9,
        0, 0, 0, 0, 0, 0, 0, 2,
        0xc3, 0xa9,
    ];
    let genes = decode_genes(&blob).unwrap();
    assert_eq!(genes.len(), 1);
    assert_eq!(genes[0].id, 9);
    assert_eq!(genes[0].sequence, "é");
    assert_eq!(genes[0].sequence.chars().count(), 1);
}
