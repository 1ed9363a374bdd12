//! Sequence identifiers and genomic ranges.
//!
//! A [`GenomicRange`] always stores its interval 0-based and half-open; the
//! constructors and accessors make the caller name the convention in use.

use std::cmp::Ordering;
use std::ops::{Range, RangeInclusive};
use vstd::prelude::*;
use vstd::std_specs::range::RangeInclusiveView;

use crate::format::{BedRow, Gff3Row};
use crate::text::{
    chars_of, compare_text, concat, find_sole, lemma_lex_cmp_equal, lemma_sole_position_unique,
    lex_cmp, parse_decimal, parse_unsigned, sole_position, string_of,
};

verus! {

/// Relies on `RangeInclusive::into_inner`: the bounds of a range that has not
/// been iterated are the ones it was built with.
pub assume_specification<Idx>[ RangeInclusive::<Idx>::into_inner ](
    r: RangeInclusive<Idx>,
) -> (res: (Idx, Idx))
    ensures
        !r@.exhausted ==> res == (r@.start, r@.end),
;

/// The one kind of failure of this library.
#[derive(Debug)]
pub enum Error {
    InvalidArguments(String),
}

impl Error {
    /// The error as text: `invalid arguments: <message>`.
    pub fn to_string(&self) -> (r: String)
        ensures
            match self {
                Error::InvalidArguments(m) => r@ == "invalid arguments: "@ + m@,
            },
    {
        match self {
            Error::InvalidArguments(m) => concat("invalid arguments: ", m.as_str()),
        }
    }
}

/// Names a genomic sequence: a chromosome, scaffold, contig and the like.
///
/// Any text is accepted. Names that read as unsigned 32-bit integers order
/// numerically among themselves; otherwise names order as text.
#[derive(Debug, Clone, Hash)]
pub struct SeqId(String);

impl View for SeqId {
    type V = Seq<char>;

    closed spec fn view(&self) -> Seq<char> {
        self.0@
    }
}

pub open spec fn int_cmp(x: int, y: int) -> Ordering {
    if x < y {
        Ordering::Less
    } else if x == y {
        Ordering::Equal
    } else {
        Ordering::Greater
    }
}

/// The order of sequence names: equal names are equal; two names that both
/// read as unsigned 32-bit integers compare as numbers; any other two compare
/// as text.
pub open spec fn seqid_cmp(a: Seq<char>, b: Seq<char>) -> Ordering {
    if a == b {
        Ordering::Equal
    } else {
        match (parse_unsigned(a, u32::MAX as int), parse_unsigned(b, u32::MAX as int)) {
            (Some(x), Some(y)) => int_cmp(x, y),
            _ => lex_cmp(a, b),
        }
    }
}

impl SeqId {
    pub fn as_str(&self) -> (r: &str)
        ensures
            r@ == self@,
    {
        self.0.as_str()
    }

    /// A sequence name holding the text `name`.
    pub fn new(name: &str) -> (r: SeqId)
        ensures
            r@ == name@,
    {
        SeqId(name.to_owned())
    }

    /// The name as text.
    pub fn to_string(&self) -> (r: String)
        ensures
            r@ == self@,
    {
        self.0.clone()
    }

    fn duplicate(&self) -> (r: SeqId)
        ensures
            r@ == self@,
    {
        SeqId(self.0.clone())
    }

    /// Compares two sequence names (see [`seqid_cmp`]).
    pub fn cmp(&self, other: &SeqId) -> (r: Ordering)
        ensures
            r == seqid_cmp(self@, other@),
    {
        let a = chars_of(self.0.as_str());
        let b = chars_of(other.0.as_str());
        let ord = compare_text(&a, &b);
        proof {
            lemma_lex_cmp_equal(a@, b@);
        }
        if let Ordering::Equal = ord {
            return Ordering::Equal;
        }
        let x = parse_decimal(&a, 0, a.len(), u32::MAX as u64);
        let y = parse_decimal(&b, 0, b.len(), u32::MAX as u64);
        assert(a@.subrange(0, a@.len() as int) == a@);
        assert(b@.subrange(0, b@.len() as int) == b@);
        match (x, y) {
            (Some(x), Some(y)) => {
                if x < y {
                    Ordering::Less
                } else if x == y {
                    Ordering::Equal
                } else {
                    Ordering::Greater
                }
            },
            _ => ord,
        }
    }
}

impl From<String> for SeqId {
    fn from(value: String) -> (r: SeqId) {
        SeqId(value)
    }
}

impl vstd::std_specs::convert::FromSpecImpl<String> for SeqId {
    open spec fn obeys_from_spec() -> bool {
        true
    }

    closed spec fn from_spec(v: String) -> SeqId {
        SeqId(v)
    }
}

impl<'a> From<&'a str> for SeqId {
    fn from(value: &'a str) -> SeqId {
        SeqId::new(value)
    }
}

impl<'a> vstd::std_specs::convert::FromSpecImpl<&'a str> for SeqId {
    open spec fn obeys_from_spec() -> bool {
        false
    }

    closed spec fn from_spec(v: &'a str) -> SeqId {
        choose|r: SeqId| r@ == v@
    }
}

impl PartialEq for SeqId {
    fn eq(&self, other: &SeqId) -> (r: bool) {
        self.0 == other.0
    }
}

impl vstd::std_specs::cmp::PartialEqSpecImpl for SeqId {
    open spec fn obeys_eq_spec() -> bool {
        true
    }

    open spec fn eq_spec(&self, other: &SeqId) -> bool {
        self@ == other@
    }
}

impl Eq for SeqId {

}

impl PartialOrd for SeqId {
    fn partial_cmp(&self, other: &SeqId) -> (r: Option<Ordering>) {
        Some(self.cmp(other))
    }
}

impl vstd::std_specs::cmp::PartialOrdSpecImpl for SeqId {
    open spec fn obeys_partial_cmp_spec() -> bool {
        true
    }

    open spec fn partial_cmp_spec(&self, other: &SeqId) -> Option<Ordering> {
        Some(seqid_cmp(self@, other@))
    }
}

/// What a [`GenomicRange`] denotes: the 0-based half-open interval
/// `[start, end)` on the sequence named `seqid`.
pub struct GenomicRangeView {
    pub seqid: Seq<char>,
    pub start: u64,
    pub end: u64,
}

/// The range given in 0-based half-open coordinates `[start, end)`.
pub open spec fn view_of_0halfopen(seqid: Seq<char>, start: u64, end: u64) -> GenomicRangeView {
    GenomicRangeView { seqid, start, end }
}

/// The range given in 1-based closed coordinates `[start, end]`: none when
/// `start` is 0.
pub open spec fn view_of_1closed(seqid: Seq<char>, start: u64, end: u64) -> Option<
    GenomicRangeView,
> {
    if start == 0 {
        None
    } else {
        Some(GenomicRangeView { seqid, start: (start - 1) as u64, end })
    }
}

/// The 1-based closed coordinates of a range.
pub open spec fn coords_1closed(g: GenomicRangeView) -> RangeInclusiveView<u64> {
    RangeInclusiveView { start: (g.start + 1) as u64, end: g.end, exhausted: false }
}

/// The 0-based half-open coordinates of a range.
pub open spec fn coords_0halfopen(g: GenomicRangeView) -> Range<u64> {
    Range { start: g.start, end: g.end }
}

/// The 0-based closed coordinates of a non-empty range.
pub open spec fn coords_0closed(g: GenomicRangeView) -> RangeInclusiveView<u64> {
    RangeInclusiveView { start: g.start, end: (g.end - 1) as u64, exhausted: false }
}

/// The smallest range on the same sequence that covers both `a` and `b`.
pub open spec fn bounding_union(a: GenomicRangeView, b: GenomicRangeView) -> GenomicRangeView {
    GenomicRangeView {
        seqid: a.seqid,
        start: if a.start <= b.start { a.start } else { b.start },
        end: if a.end >= b.end { a.end } else { b.end },
    }
}

/// The order of ranges: by sequence name, then by start, then by end.
pub open spec fn range_cmp(a: GenomicRangeView, b: GenomicRangeView) -> Ordering {
    match seqid_cmp(a.seqid, b.seqid) {
        Ordering::Equal => if a.start != b.start {
            int_cmp(a.start as int, b.start as int)
        } else {
            int_cmp(a.end as int, b.end as int)
        },
        o => o,
    }
}

/// The fields of a locus `<seqid>:<start>-<end>`: the text holds exactly one
/// `:`, the text after it exactly one `-`, and both bounds read as `u64`.
pub open spec fn locus_fields(s: Seq<char>) -> Option<(Seq<char>, u64, u64)> {
    if exists|i: int| sole_position(s, ':', i) {
        let i = choose|i: int| sole_position(s, ':', i);
        let bounds = s.subrange(i + 1, s.len() as int);
        if exists|j: int| sole_position(bounds, '-', j) {
            let j = choose|j: int| sole_position(bounds, '-', j);
            match (
                parse_unsigned(bounds.subrange(0, j), u64::MAX as int),
                parse_unsigned(bounds.subrange(j + 1, bounds.len() as int), u64::MAX as int),
            ) {
                (Some(a), Some(b)) => Some((s.subrange(0, i), a as u64, b as u64)),
                _ => None,
            }
        } else {
            None
        }
    } else {
        None
    }
}

/// What a locus denotes: its bounds are 1-based and closed.
pub open spec fn view_of_locus(s: Seq<char>) -> Option<GenomicRangeView> {
    match locus_fields(s) {
        Some((name, a, b)) => view_of_1closed(name, a, b),
        None => None,
    }
}

/// `r` is what reading the locus `s` gives: the range it denotes, or an error
/// where it denotes none.
pub open spec fn locus_result(s: Seq<char>, r: Result<GenomicRange, Error>) -> bool {
    match view_of_locus(s) {
        Some(g) => r is Ok && r->Ok_0@ == g,
        None => r is Err,
    }
}

/// A range on a genomic sequence.
///
/// The interval is held 0-based and half-open; each accessor names the
/// convention it answers in, so that coordinates of different formats are
/// never mixed up.
#[derive(Clone, Debug)]
pub struct GenomicRange {
    seqid: SeqId,
    start: u64,
    end: u64,
}

impl View for GenomicRange {
    type V = GenomicRangeView;

    closed spec fn view(&self) -> GenomicRangeView {
        GenomicRangeView { seqid: self.seqid@, start: self.start, end: self.end }
    }
}

impl GenomicRange {
    /// The bounding union of two ranges on one sequence. This covers the gap
    /// between two disjoint ranges too. Ranges on different sequences are
    /// refused.
    pub fn combine(&self, other: &GenomicRange) -> (r: Result<GenomicRange, Error>)
        ensures
            r is Ok <==> self@.seqid == other@.seqid,
            r is Ok ==> r->Ok_0@ == bounding_union(self@, other@),
    {
        if self.seqid != other.seqid {
            Err(
                Error::InvalidArguments(
                    "can only combine GenomicRanges with the same seqid".to_owned(),
                ),
            )
        } else {
            let start = if self.start <= other.start {
                self.start
            } else {
                other.start
            };
            let end = if self.end >= other.end {
                self.end
            } else {
                other.end
            };
            Ok(GenomicRange { seqid: self.seqid.duplicate(), start, end })
        }
    }

    /// A range from 0-based half-open coordinates; never fails.
    pub fn from_0halfopen(seqid: SeqId, range: Range<u64>) -> (r: Result<GenomicRange, Error>)
        ensures
            r is Ok,
            r->Ok_0@ == view_of_0halfopen(seqid@, range.start, range.end),
    {
        Ok(GenomicRange { seqid, start: range.start, end: range.end })
    }

    /// A range from 1-based closed coordinates; a start of 0 is refused.
    pub fn from_1closed(seqid: SeqId, range: RangeInclusive<u64>) -> (r: Result<
        GenomicRange,
        Error,
    >)
        requires
            !range@.exhausted,
        ensures
            r is Err <==> range@.start == 0,
            match view_of_1closed(seqid@, range@.start, range@.end) {
                Some(g) => r is Ok && r->Ok_0@ == g,
                None => r is Err,
            },
    {
        let (start, end) = range.into_inner();
        if start == 0 {
            return Err(Error::InvalidArguments("1-based coordinates can't start with 0".to_owned()));
        }
        Ok(GenomicRange { seqid, start: start - 1, end })
    }

    /// Reads a locus `<seqid>:<start>-<end>` in 1-based closed coordinates.
    pub fn from_locus(s: &str) -> (r: Result<GenomicRange, Error>)
        ensures
            locus_result(s@, r),
    {
        let v = chars_of(s);
        let n = v.len();
        let shape_error = Error::InvalidArguments(
            "location should be in the form <seqid>:<start>-<end>".to_owned(),
        );
        assert(v@.subrange(0, n as int) == s@);
        let colon = match find_sole(&v, 0, n, ':') {
            Some(i) => i,
            None => {
                return Err(shape_error);
            },
        };
        proof {
            assert forall|k: int| sole_position(s@, ':', k) implies k == colon by {
                lemma_sole_position_unique(s@, ':', colon as int, k);
            }
        }
        let ghost bounds = s@.subrange(colon + 1, n as int);
        assert(v@.subrange(colon + 1, n as int) == bounds);
        let dash = match find_sole(&v, colon + 1, n, '-') {
            Some(j) => j,
            None => {
                return Err(shape_error);
            },
        };
        proof {
            assert forall|k: int| sole_position(bounds, '-', k) implies k == dash by {
                lemma_sole_position_unique(bounds, '-', dash as int, k);
            }
        }
        let mid = colon + 1 + dash;
        assert(bounds.subrange(0, dash as int) == v@.subrange(colon + 1, mid as int));
        assert(bounds.subrange(dash + 1, bounds.len() as int) == v@.subrange(mid + 1, n as int));
        let start = match parse_decimal(&v, colon + 1, mid, u64::MAX) {
            Some(x) => x,
            None => {
                return Err(shape_error);
            },
        };
        let end = match parse_decimal(&v, mid + 1, n, u64::MAX) {
            Some(x) => x,
            None => {
                return Err(shape_error);
            },
        };
        let name = string_of(&v, 0, colon);
        assert(v@.subrange(0, colon as int) == s@.subrange(0, colon as int));
        GenomicRange::from_1closed(SeqId(name), start..=end)
    }

    /// The range of a GFF3 row, whose coordinates are 1-based and closed.
    pub fn from_gff_row<T>(row: &Gff3Row<T>) -> (r: GenomicRange)
        requires
            row.start >= 1,
        ensures
            view_of_1closed(row.seqid@, row.start, row.end) == Some(r@),
    {
        GenomicRange { seqid: row.seqid.duplicate(), start: row.start - 1, end: row.end }
    }

    /// The range of a BED-family row, whose coordinates are 0-based and half-open.
    pub fn from_bed_row<T: BedRow>(row: &T) -> (r: GenomicRange)
        ensures
            r@ == view_of_0halfopen(row.chrom_view(), row.chrom_start_view(), row.chrom_end_view()),
    {
        GenomicRange {
            seqid: row.chrom().duplicate(),
            start: row.chrom_start(),
            end: row.chrom_end(),
        }
    }

    pub fn seqid(&self) -> (r: &SeqId)
        ensures
            r@ == self@.seqid,
    {
        &self.seqid
    }

    /// The range in 1-based closed coordinates.
    pub fn range_1closed(&self) -> (r: RangeInclusive<u64>)
        requires
            self@.start < u64::MAX,
        ensures
            r@ == coords_1closed(self@),
    {
        (self.start + 1)..=(self.end)
    }

    /// The range in 0-based half-open coordinates.
    pub fn range_0halfopen(&self) -> (r: Range<u64>)
        ensures
            r == coords_0halfopen(self@),
    {
        (self.start)..(self.end)
    }

    /// The range in 0-based closed coordinates; an empty range has none.
    pub fn range_0closed(&self) -> (r: RangeInclusive<u64>)
        requires
            self@.end > self@.start,
        ensures
            r@ == coords_0closed(self@),
    {
        (self.start)..=(self.end - 1)
    }

    /// Compares two ranges (see [`range_cmp`]).
    pub fn cmp(&self, other: &GenomicRange) -> (r: Ordering)
        ensures
            r == range_cmp(self@, other@),
    {
        match self.seqid.cmp(&other.seqid) {
            Ordering::Equal => {},
            o => return o,
        }
        if self.start < other.start {
            Ordering::Less
        } else if self.start > other.start {
            Ordering::Greater
        } else if self.end < other.end {
            Ordering::Less
        } else if self.end > other.end {
            Ordering::Greater
        } else {
            Ordering::Equal
        }
    }
}

impl PartialEq for GenomicRange {
    fn eq(&self, other: &GenomicRange) -> (r: bool) {
        self.seqid == other.seqid && self.start == other.start && self.end == other.end
    }
}

impl vstd::std_specs::cmp::PartialEqSpecImpl for GenomicRange {
    open spec fn obeys_eq_spec() -> bool {
        true
    }

    open spec fn eq_spec(&self, other: &GenomicRange) -> bool {
        self@ == other@
    }
}

impl Eq for GenomicRange {

}

impl PartialOrd for GenomicRange {
    fn partial_cmp(&self, other: &GenomicRange) -> (r: Option<Ordering>) {
        Some(self.cmp(other))
    }
}

impl vstd::std_specs::cmp::PartialOrdSpecImpl for GenomicRange {
    open spec fn obeys_partial_cmp_spec() -> bool {
        true
    }

    open spec fn partial_cmp_spec(&self, other: &GenomicRange) -> Option<Ordering> {
        Some(range_cmp(self@, other@))
    }
}

impl<'a> TryFrom<&'a str> for GenomicRange {
    type Error = Error;

    fn try_from(value: &'a str) -> Result<GenomicRange, Error> {
        GenomicRange::from_locus(value)
    }
}

impl<'a> vstd::std_specs::convert::TryFromSpecImpl<&'a str> for GenomicRange {
    open spec fn obeys_try_from_spec() -> bool {
        false
    }

    closed spec fn try_from_spec(v: &'a str) -> Result<GenomicRange, Error> {
        choose|r: Result<GenomicRange, Error>| #[trigger] locus_result(v@, r)
    }
}

impl std::str::FromStr for GenomicRange {
    type Err = Error;

    fn from_str(s: &str) -> Result<GenomicRange, Error> {
        GenomicRange::from_locus(s)
    }
}

/// Building a range from 1-based closed coordinates `start..=end`, with
/// `start >= 1`, and reading it back in that convention gives `start..=end`.
pub proof fn lemma_1closed_round_trip(seqid: Seq<char>, start: u64, end: u64)
    requires
        1 <= start <= end,
    ensures
        view_of_1closed(seqid, start, end) is Some,
        view_of_1closed(seqid, start, end)->0.start < u64::MAX,
        coords_1closed(view_of_1closed(seqid, start, end)->0) == (RangeInclusiveView {
            start,
            end,
            exhausted: false,
        }),
{
}

/// Building a range from 0-based half-open coordinates `start..end`, with
/// `end >= start`, and reading it back in that convention gives `start..end`.
pub proof fn lemma_0halfopen_round_trip(seqid: Seq<char>, start: u64, end: u64)
    requires
        start <= end,
    ensures
        coords_0halfopen(view_of_0halfopen(seqid, start, end)) == (Range { start, end }),
{
}

} // verus!
