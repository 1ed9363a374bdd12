//! Rows of the GFF3, BED6 and BedGraph formats.
//!
//! Each row mirrors the columns of its format; ranges and data intervals are
//! built from rows through [`GenomicRange`], which fixes the coordinate
//! convention once.

use indexmap::IndexMap;
use vstd::prelude::*;

use crate::genome::{view_of_0halfopen, GenomicRange, GenomicRangeView, SeqId};
use crate::text::{
    chars_of, find_first, first_position, lemma_first_position_unique, split_on, string_of,
};

verus! {

#[verifier::external_type_specification]
#[verifier::external_body]
#[verifier::reject_recursive_types(K)]
#[verifier::reject_recursive_types(V)]
#[verifier::reject_recursive_types(S)]
pub struct ExIndexMap<K, V, S>(IndexMap<K, V, S>);

/// The entries of an attribute map, in their order of iteration.
pub uninterp spec fn attribute_entries(m: IndexMap<String, String>) -> Seq<(Seq<char>, Seq<char>)>;

/// The position of the first entry with key `k`, or -1 where there is none.
pub open spec fn key_index(m: Seq<(Seq<char>, Seq<char>)>, k: Seq<char>) -> int
    decreases m.len(),
{
    if m.len() == 0 {
        -1
    } else if m[0].0 == k {
        0
    } else {
        let p = key_index(m.drop_first(), k);
        if p < 0 {
            -1
        } else {
            p + 1
        }
    }
}

/// The entries after inserting `k` with `v`: an existing key keeps its place
/// and takes the new value; a new key comes last.
pub open spec fn entry_insert(m: Seq<(Seq<char>, Seq<char>)>, k: Seq<char>, v: Seq<char>) -> Seq<
    (Seq<char>, Seq<char>),
> {
    let p = key_index(m, k);
    if p >= 0 {
        m.update(p, (k, v))
    } else {
        m.push((k, v))
    }
}

/// Relies on `IndexMap::new`: a new map holds no entries.
#[verifier::external_body]
fn new_attribute_map() -> (r: IndexMap<String, String>)
    ensures
        attribute_entries(r) == Seq::<(Seq<char>, Seq<char>)>::empty(),
{
    IndexMap::new()
}

/// Relies on `IndexMap::insert`: a key already present keeps its place in the
/// order and takes the new value; a new key is appended last.
#[verifier::external_body]
fn insert_attribute(m: &mut IndexMap<String, String>, k: String, v: String)
    ensures
        attribute_entries(*final(m)) == entry_insert(attribute_entries(*old(m)), k@, v@),
{
    m.insert(k, v);
}

/// The key and the value of one attribute piece `key=value`, split at the
/// first `=`; none for a piece without `=`.
pub open spec fn key_value(piece: Seq<char>) -> Option<(Seq<char>, Seq<char>)> {
    if exists|k: int| first_position(piece, '=', k) {
        let k = choose|k: int| first_position(piece, '=', k);
        Some((piece.subrange(0, k), piece.subrange(k + 1, piece.len() as int)))
    } else {
        None
    }
}

/// The entries that the pieces give, inserted in turn.
pub open spec fn entries_of_pieces(ps: Seq<Seq<char>>) -> Seq<(Seq<char>, Seq<char>)>
    decreases ps.len(),
{
    if ps.len() == 0 {
        Seq::empty()
    } else {
        let m = entries_of_pieces(ps.drop_last());
        match key_value(ps.last()) {
            Some((k, v)) => entry_insert(m, k, v),
            None => m,
        }
    }
}

/// The attributes that a GFF3 attribute column holds: its `;`-separated
/// pieces, each split at its first `=`; pieces without `=` are left out, and a
/// repeated key keeps its first place and its last value.
pub open spec fn parsed_attributes(s: Seq<char>) -> Seq<(Seq<char>, Seq<char>)> {
    entries_of_pieces(split_on(s, ';'))
}

fn insert_piece(m: &mut IndexMap<String, String>, v: &Vec<char>, lo: usize, hi: usize)
    requires
        lo <= hi <= v.len(),
    ensures
        attribute_entries(*final(m)) == match key_value(v@.subrange(lo as int, hi as int)) {
            Some((k, x)) => entry_insert(attribute_entries(*old(m)), k, x),
            None => attribute_entries(*old(m)),
        },
{
    let ghost piece = v@.subrange(lo as int, hi as int);
    match find_first(v, lo, hi, '=') {
        Some(p) => {
            proof {
                assert forall|k: int| first_position(piece, '=', k) implies k == p by {
                    lemma_first_position_unique(piece, '=', p as int, k);
                }
            }
            let key = string_of(v, lo, lo + p);
            let value = string_of(v, lo + p + 1, hi);
            assert(piece.subrange(0, p as int) == v@.subrange(lo as int, lo + p));
            assert(piece.subrange(p + 1, piece.len() as int) == v@.subrange(lo + p + 1, hi as int));
            insert_attribute(m, key, value);
        },
        None => {},
    }
}

/// Parses a GFF3 attribute column `key=value;key=value;...` into an ordered
/// map. Malformed pieces are dropped; parsing never fails. Percent-encoded
/// characters are kept as they are.
pub fn parse_attributes(s: &str) -> (r: IndexMap<String, String>)
    ensures
        attribute_entries(r) == parsed_attributes(s@),
{
    let v = chars_of(s);
    let n = v.len();
    let mut m = new_attribute_map();
    let mut st: usize = 0;
    let mut i: usize = 0;
    let ghost mut done: Seq<Seq<char>> = Seq::empty();
    assert(v@.subrange(0, 0) == Seq::<char>::empty());
    while i < n
        invariant
            st <= i <= n == v.len(),
            v@ == s@,
            split_on(v@.subrange(0, i as int), ';') == done.push(v@.subrange(st as int, i as int)),
            attribute_entries(m) == entries_of_pieces(done),
        decreases n - i,
    {
        let ghost prefix = v@.subrange(0, i + 1);
        assert(prefix.drop_last() == v@.subrange(0, i as int));
        if v[i] == ';' {
            insert_piece(&mut m, &v, st, i);
            proof {
                let piece = v@.subrange(st as int, i as int);
                assert(done.push(piece).drop_last() == done);
                done = done.push(piece);
                assert(v@.subrange(i + 1, i + 1) == Seq::<char>::empty());
            }
            st = i + 1;
        } else {
            assert(v@.subrange(st as int, i + 1) == v@.subrange(st as int, i as int).push(v@[i as int]));
            assert(done.push(v@.subrange(st as int, i as int)).drop_last() == done);
        }
        i = i + 1;
    }
    insert_piece(&mut m, &v, st, n);
    proof {
        let piece = v@.subrange(st as int, n as int);
        assert(done.push(piece).drop_last() == done);
        assert(v@.subrange(0, n as int) == v@);
    }
    m
}

/// The standard columns of a GFF3 row.
///
/// Coordinates are 1-based and closed. `score` and `phase` are kept as text,
/// since GFF3 writes `.` for a missing value; `attributes` keeps the order of
/// first appearance (see [`parse_attributes`]).
pub struct Gff3Row<T> {
    pub seqid: SeqId,
    pub source: String,
    pub feature_type: T,
    pub start: u64,
    pub end: u64,
    pub score: String,
    pub strand: Strand,
    pub phase: String,
    pub attributes: IndexMap<String, String>,
}

/// The strand an annotation lies on: `+`, `-`, or `.` where none is given.
#[derive(Debug, Clone, Copy, PartialEq, Eq, Structural)]
pub enum Strand {
    Plus,
    Minus,
    Unspecified,
}

/// The symbol of a strand in the row formats.
pub open spec fn strand_symbol(s: Strand) -> Seq<char> {
    match s {
        Strand::Plus => "+"@,
        Strand::Minus => "-"@,
        Strand::Unspecified => "."@,
    }
}

impl Strand {
    /// The strand's symbol: `+`, `-` or `.`.
    pub fn to_string(&self) -> (r: String)
        ensures
            r@ == strand_symbol(*self),
    {
        match self {
            Strand::Plus => "+".to_owned(),
            Strand::Minus => "-".to_owned(),
            Strand::Unspecified => ".".to_owned(),
        }
    }
}

/// The columns that every BED row has, in 0-based half-open coordinates.
pub trait BedRow {
    spec fn chrom_view(&self) -> Seq<char>;

    spec fn chrom_start_view(&self) -> u64;

    spec fn chrom_end_view(&self) -> u64;

    fn chrom(&self) -> (r: &SeqId)
        ensures
            r@ == self.chrom_view(),
    ;

    fn chrom_start(&self) -> (r: u64)
        ensures
            r == self.chrom_start_view(),
    ;

    fn chrom_end(&self) -> (r: u64)
        ensures
            r == self.chrom_end_view(),
    ;
}

/// The standard columns of a BED6 row.
pub struct Bed6Row {
    pub chrom: SeqId,
    pub chrom_start: u64,
    pub chrom_end: u64,
    pub name: String,
    pub score: u16,
    pub strand: Strand,
}

impl BedRow for Bed6Row {
    open spec fn chrom_view(&self) -> Seq<char> {
        self.chrom@
    }

    open spec fn chrom_start_view(&self) -> u64 {
        self.chrom_start
    }

    open spec fn chrom_end_view(&self) -> u64 {
        self.chrom_end
    }

    fn chrom(&self) -> (r: &SeqId) {
        &self.chrom
    }

    fn chrom_start(&self) -> (r: u64) {
        self.chrom_start
    }

    fn chrom_end(&self) -> (r: u64) {
        self.chrom_end
    }
}

impl Bed6Row {
    pub fn name(&self) -> (r: &String)
        ensures
            r == &self.name,
    {
        &self.name
    }

    pub fn score(&self) -> (r: u16)
        ensures
            r == self.score,
    {
        self.score
    }

    pub fn strand(&self) -> (r: Strand)
        ensures
            r == self.strand,
    {
        self.strand
    }
}

/// What a [`DataInterval`] holds: a range and one optional value per data
/// column, in column order.
pub struct DataIntervalView<T> {
    pub range: GenomicRangeView,
    pub values: Seq<Option<T>>,
}

/// A genomic range with zero or more data values; `None` marks a missing one.
pub struct DataInterval<T: Copy> {
    range: GenomicRange,
    values: Vec<Option<T>>,
}

impl<T: Copy> View for DataInterval<T> {
    type V = DataIntervalView<T>;

    closed spec fn view(&self) -> DataIntervalView<T> {
        DataIntervalView { range: self.range@, values: self.values@ }
    }
}

impl<T: Copy> DataInterval<T> {
    pub fn new(range: GenomicRange, values: Vec<Option<T>>) -> (r: DataInterval<T>)
        ensures
            r@ == (DataIntervalView { range: range@, values: values@ }),
    {
        DataInterval { range, values }
    }

    pub fn values(&self) -> (r: &[Option<T>])
        ensures
            r@ == self@.values,
    {
        self.values.as_slice()
    }

    pub fn range(&self) -> (r: &GenomicRange)
        ensures
            r@ == self@.range,
    {
        &self.range
    }

    /// The interval of a BedGraph row: its range and its one value.
    pub fn from_bedgraph_row(row: BedGraphRow<T>) -> (r: DataInterval<T>)
        ensures
            r@.range == view_of_0halfopen(row.chrom@, row.chrom_start, row.chrom_end),
            r@.values == seq![Some(row.data_value)],
    {
        let range = GenomicRange::from_0halfopen(row.chrom, row.chrom_start..row.chrom_end).unwrap();
        let values = vec![Some(row.data_value)];
        DataInterval { range, values }
    }

    /// The interval of an extended BedGraph row: its range and its values,
    /// missing ones included, in column order.
    pub fn from_bedgraph_ext_row(row: BedGraphExtRow<T>) -> (r: DataInterval<T>)
        ensures
            r@.range == view_of_0halfopen(row.chrom@, row.chrom_start, row.chrom_end),
            r@.values == row.data_values@,
    {
        let range = GenomicRange::from_0halfopen(row.chrom, row.chrom_start..row.chrom_end).unwrap();
        DataInterval { range, values: row.data_values }
    }
}

impl<T: Copy> From<BedGraphRow<T>> for DataInterval<T> {
    fn from(row: BedGraphRow<T>) -> DataInterval<T> {
        DataInterval::from_bedgraph_row(row)
    }
}

impl<T: Copy> vstd::std_specs::convert::FromSpecImpl<BedGraphRow<T>> for DataInterval<T> {
    open spec fn obeys_from_spec() -> bool {
        false
    }

    closed spec fn from_spec(row: BedGraphRow<T>) -> DataInterval<T> {
        choose|d: DataInterval<T>|
            d@.range == view_of_0halfopen(row.chrom@, row.chrom_start, row.chrom_end)
                && d@.values == seq![Some(row.data_value)]
    }
}

impl<T: Copy> From<BedGraphExtRow<T>> for DataInterval<T> {
    fn from(row: BedGraphExtRow<T>) -> DataInterval<T> {
        DataInterval::from_bedgraph_ext_row(row)
    }
}

impl<T: Copy> vstd::std_specs::convert::FromSpecImpl<BedGraphExtRow<T>> for DataInterval<T> {
    open spec fn obeys_from_spec() -> bool {
        false
    }

    closed spec fn from_spec(row: BedGraphExtRow<T>) -> DataInterval<T> {
        choose|d: DataInterval<T>|
            d@.range == view_of_0halfopen(row.chrom@, row.chrom_start, row.chrom_end)
                && d@.values == row.data_values@
    }
}

/// The standard columns of a BedGraph row: one value per interval.
pub struct BedGraphRow<T: Copy> {
    pub chrom: SeqId,
    pub chrom_start: u64,
    pub chrom_end: u64,
    pub data_value: T,
}

/// An extended BedGraph row: zero or more values per interval, any of them
/// possibly missing.
pub struct BedGraphExtRow<T: Copy> {
    pub chrom: SeqId,
    pub chrom_start: u64,
    pub chrom_end: u64,
    pub data_values: Vec<Option<T>>,
}

} // verus!
