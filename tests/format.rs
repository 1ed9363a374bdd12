use genomic::format::{
    parse_attributes, Bed6Row, BedGraphExtRow, BedGraphRow, BedRow, DataInterval, Gff3Row, Strand,
};
use genomic::genome::{GenomicRange, SeqId};
use indexmap::IndexMap;

fn entries(m: &IndexMap<String, String>) -> Vec<(String, String)> {
    m.iter().map(|(k, v)| (k.clone(), v.clone())).collect()
}

fn pairs(p: &[(&str, &str)]) -> Vec<(String, String)> {
    p.iter().map(|(k, v)| (k.to_string(), v.to_string())).collect()
}

#[test]
fn attributes_repeated_key_and_bad_piece() {
    let m = parse_attributes("ID=gene1;Name=Foo;bad;Name=Bar");
    assert_eq!(entries(&m), pairs(&[("ID", "gene1"), ("Name", "Bar")]));
}

#[test]
fn attributes_edge_cases() {
    assert!(parse_attributes("").is_empty());
    assert!(parse_attributes(";;;").is_empty());
    assert_eq!(entries(&parse_attributes("a=b=c")), pairs(&[("a", "b=c")]));
    assert_eq!(entries(&parse_attributes("=x;k=")), pairs(&[("", "x"), ("k", "")]));
    assert_eq!(
        entries(&parse_attributes(" a=1; b=2;a=3")),
        pairs(&[(" a", "1"), (" b", "2"), ("a", "3")])
    );
    assert_eq!(
        entries(&parse_attributes("Note=50%25;x=1")),
        pairs(&[("Note", "50%25"), ("x", "1")])
    );
}

#[test]
fn strand_symbols() {
    assert_eq!(Strand::Plus.to_string(), "+");
    assert_eq!(Strand::Minus.to_string(), "-");
    assert_eq!(Strand::Unspecified.to_string(), ".");
}

fn bed6() -> Bed6Row {
    Bed6Row {
        chrom: SeqId::from("chr1"),
        chrom_start: 10,
        chrom_end: 20,
        name: "feat1".to_string(),
        score: 500,
        strand: Strand::Plus,
    }
}

#[test]
fn bed6_row_to_range() {
    let row = bed6();
    let g = GenomicRange::from_bed_row(&row);
    assert_eq!(g, GenomicRange::from_0halfopen(SeqId::from("chr1"), 10..20).unwrap());
    assert_eq!(g.range_0halfopen(), 10..20);
    assert_eq!(g.range_1closed(), 11..=20);
}

#[test]
fn bed6_accessors() {
    let row = bed6();
    assert_eq!(row.name(), "feat1");
    assert_eq!(row.score(), 500);
    assert_eq!(row.strand(), Strand::Plus);
    assert_eq!(row.chrom().as_str(), "chr1");
    assert_eq!(row.chrom_start(), 10);
    assert_eq!(row.chrom_end(), 20);
}

#[test]
fn gff_row_to_range() {
    let row = Gff3Row {
        seqid: SeqId::from("ctg9"),
        source: "maker".to_string(),
        feature_type: "gene".to_string(),
        start: 1,
        end: 300,
        score: ".".to_string(),
        strand: Strand::Minus,
        phase: ".".to_string(),
        attributes: parse_attributes("ID=g1"),
    };
    let g = GenomicRange::from_gff_row(&row);
    assert_eq!(g.range_0halfopen(), 0..300);
    assert_eq!(g.range_1closed(), 1..=300);
    assert_eq!(g.seqid().as_str(), "ctg9");
}

#[test]
fn bedgraph_row_to_interval() {
    let row = BedGraphRow { chrom: SeqId::from("chr2"), chrom_start: 0, chrom_end: 5, data_value: 7i32 };
    let d = DataInterval::from(row);
    assert_eq!(d.values(), &[Some(7)]);
    assert_eq!(d.range().range_0halfopen(), 0..5);
    assert_eq!(d.range().seqid().as_str(), "chr2");
}

#[test]
fn bedgraph_ext_row_to_interval() {
    let row = BedGraphExtRow {
        chrom: SeqId::from("chr3"),
        chrom_start: 4,
        chrom_end: 9,
        data_values: vec![Some(5i64), None, Some(3)],
    };
    let d = DataInterval::from_bedgraph_ext_row(row);
    assert_eq!(d.values(), &[Some(5), None, Some(3)]);
    assert_eq!(d.range().range_0halfopen(), 4..9);
}

#[test]
fn bedgraph_ext_row_without_values() {
    let row: BedGraphExtRow<u8> = BedGraphExtRow {
        chrom: SeqId::from("chr3"),
        chrom_start: 4,
        chrom_end: 4,
        data_values: vec![],
    };
    let d = DataInterval::from(row);
    assert!(d.values().is_empty());
}

#[test]
fn data_interval_new() {
    let g = GenomicRange::from_0halfopen(SeqId::from("1"), 2..3).unwrap();
    let d = DataInterval::new(g.clone(), vec![None, Some(1u16)]);
    assert_eq!(d.range(), &g);
    assert_eq!(d.values(), &[None, Some(1)]);
}
