use genomic::genome::{GenomicRange, SeqId};
use std::cmp::Ordering;

fn sid(s: &str) -> SeqId {
    SeqId::from(s)
}

#[test]
fn round_trip_1closed() {
    for (start, end) in [(1u64, 1u64), (5, 10), (1, u64::MAX), (u64::MAX, u64::MAX)] {
        let g = GenomicRange::from_1closed(sid("chr1"), start..=end).unwrap();
        assert_eq!(g.range_1closed(), start..=end);
    }
}

#[test]
fn round_trip_0halfopen() {
    for (start, end) in [(0u64, 0u64), (3, 7), (0, u64::MAX)] {
        let g = GenomicRange::from_0halfopen(sid("chr1"), start..end).unwrap();
        assert_eq!(g.range_0halfopen(), start..end);
    }
}

#[test]
fn conventions_of_one_range() {
    let g = GenomicRange::from_1closed(sid("chr1"), 11..=20).unwrap();
    assert_eq!(g.range_0halfopen(), 10..20);
    assert_eq!(g.range_0closed(), 10..=19);
    assert_eq!(g.range_1closed(), 11..=20);
    assert_eq!(g.seqid().as_str(), "chr1");
}

#[test]
fn from_1closed_rejects_zero_start() {
    for n in [0u64, 1, 5, u64::MAX] {
        let r = GenomicRange::from_1closed(sid("chr1"), 0..=n);
        assert!(r.is_err());
        let msg = r.unwrap_err().to_string();
        assert_eq!(msg, "invalid arguments: 1-based coordinates can't start with 0");
    }
}

#[test]
fn seqid_numeric_and_text_order() {
    assert!(sid("2") < sid("10"));
    assert!(sid("chr2") > sid("chr10"));
    assert_eq!(sid("chr2").cmp(&sid("chr10")), Ordering::Greater);
    assert_eq!(sid("2").cmp(&sid("10")), Ordering::Less);
    assert_eq!(sid("X").cmp(&sid("X")), Ordering::Equal);
    assert!(sid("10") < sid("X"));
}

#[test]
fn seqid_edge_orders() {
    // same number written differently
    assert_eq!(sid("01").cmp(&sid("1")), Ordering::Equal);
    assert!(sid("01") != sid("1"));
    // beyond 32 bits: compared as text
    assert_eq!(sid("4294967296").cmp(&sid("5")), Ordering::Less);
    assert_eq!(sid("4294967295").cmp(&sid("5")), Ordering::Greater);
    // only one side numeric: compared as text
    assert_eq!(sid("2").cmp(&sid("10a")), Ordering::Greater);
    assert_eq!(sid("+7").cmp(&sid("10")), Ordering::Less);
    assert_eq!(sid("").cmp(&sid("a")), Ordering::Less);
}

#[test]
fn seqid_text_forms() {
    let s = SeqId::from(String::from("scaffold_7"));
    assert_eq!(s.as_str(), "scaffold_7");
    assert_eq!(s.to_string(), "scaffold_7");
    assert_eq!(SeqId::new("chrM"), sid("chrM"));
}

#[test]
fn range_order() {
    let a = GenomicRange::from_0halfopen(sid("2"), 5..10).unwrap();
    let b = GenomicRange::from_0halfopen(sid("10"), 0..1).unwrap();
    let c = GenomicRange::from_0halfopen(sid("2"), 5..12).unwrap();
    let d = GenomicRange::from_0halfopen(sid("2"), 6..7).unwrap();
    assert!(a < b);
    assert!(a < c);
    assert!(c < d);
    assert_eq!(a.cmp(&a.clone()), Ordering::Equal);
    assert_eq!(d.cmp(&a), Ordering::Greater);
}

#[test]
fn combine_overlapping() {
    let a = GenomicRange::from_0halfopen(sid("seq1"), 5..10).unwrap();
    let b = GenomicRange::from_0halfopen(sid("seq1"), 8..20).unwrap();
    let expected = GenomicRange::from_0halfopen(sid("seq1"), 5..20).unwrap();
    assert_eq!(a.combine(&b).unwrap(), expected);
    assert_eq!(b.combine(&a).unwrap(), expected);
}

#[test]
fn combine_disjoint_covers_gap() {
    let a = GenomicRange::from_0halfopen(sid("seq1"), 30..40).unwrap();
    let b = GenomicRange::from_0halfopen(sid("seq1"), 5..10).unwrap();
    let g = a.combine(&b).unwrap();
    assert_eq!(g.range_0halfopen(), 5..40);
    assert_eq!(g.seqid().as_str(), "seq1");
}

#[test]
fn combine_across_sequences_fails() {
    let a = GenomicRange::from_0halfopen(sid("seq1"), 5..10).unwrap();
    let b = GenomicRange::from_0halfopen(sid("seq2"), 8..20).unwrap();
    let e = a.combine(&b).unwrap_err();
    assert_eq!(
        e.to_string(),
        "invalid arguments: can only combine GenomicRanges with the same seqid"
    );
}

#[test]
fn locus_parses() {
    let g = GenomicRange::from_locus("chr1:100-200").unwrap();
    assert_eq!(g.range_0halfopen(), 99..200);
    assert_eq!(g.seqid().as_str(), "chr1");
    let h: GenomicRange = "chr1:100-200".parse().unwrap();
    assert_eq!(g, h);
    let big = GenomicRange::from_locus("7:+1-18446744073709551615").unwrap();
    assert_eq!(big.range_1closed(), 1..=u64::MAX);
}

#[test]
fn locus_malformed() {
    for s in [
        "chr1:100",
        "chr1:abc-200",
        "chr1",
        "chr1:1:2-3",
        "chr1:1-2-3",
        "chr1:-200",
        "chr1:100-",
        "chr1:100-18446744073709551616",
        "chr1: 100-200",
        "",
    ] {
        let e = GenomicRange::from_locus(s).unwrap_err();
        assert_eq!(
            e.to_string(),
            "invalid arguments: location should be in the form <seqid>:<start>-<end>"
        );
    }
}

#[test]
fn locus_zero_start() {
    let e = GenomicRange::from_locus("chr1:0-10").unwrap_err();
    assert_eq!(e.to_string(), "invalid arguments: 1-based coordinates can't start with 0");
}

#[test]
fn locus_try_from() {
    let g = GenomicRange::try_from("chrX:1-1").unwrap();
    assert_eq!(g.range_0halfopen(), 0..1);
    assert_eq!(g.range_0closed(), 0..=0);
    assert!(GenomicRange::try_from("chrX:1_000-2").is_err());
}
