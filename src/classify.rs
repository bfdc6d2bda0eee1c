//! Classification of a location against one gene: promoter, exonic, intronic
//! or intergenic, and the signed distance to the gene's transcription start.

use vstd::prelude::*;

use crate::location::Location;
use crate::loctogene::{GenomicFeature, Strand, TSSRegion};
use crate::text::{join, join_strings, str_eq, views};

verus! {

pub const NA: &'static str = "n/a";

pub const PROMOTER: &'static str = "promoter";

pub const EXONIC: &'static str = "exonic";

pub const INTRONIC: &'static str = "intronic";

pub const INTERGENIC: &'static str = "intergenic";

/// First base of the promoter window: `offset_5p` before the TSS on the
/// positive strand, `offset_3p` before it on the negative one.
pub open spec fn promoter_start(f: GenomicFeature, r: TSSRegion) -> int {
    match f.spec_strand() {
        Strand::Plus => f.tss() - r.spec_offset_5p(),
        Strand::Neg => f.tss() - r.spec_offset_3p(),
    }
}

/// Last base of the promoter window: `offset_3p` after the TSS on the
/// positive strand, `offset_5p` after it on the negative one.
pub open spec fn promoter_end(f: GenomicFeature, r: TSSRegion) -> int {
    match f.spec_strand() {
        Strand::Plus => f.tss() + r.spec_offset_3p(),
        Strand::Neg => f.tss() + r.spec_offset_5p(),
    }
}

/// Whether a point lies in the gene's promoter window.
pub open spec fn in_promoter(f: GenomicFeature, r: TSSRegion, mid: int) -> bool {
    promoter_start(f, r) <= mid <= promoter_end(f, r)
}

/// Whether a point lies within the gene's extent.
pub open spec fn in_gene_body(f: GenomicFeature, mid: int) -> bool {
    f.start <= mid <= f.end
}

/// Signed distance from a point to the gene's TSS: positive when the TSS lies
/// after the point.
pub open spec fn tss_distance(f: GenomicFeature, mid: int) -> int {
    f.tss() - mid
}

/// The labels that apply, in order: `promoter`, then `exonic` or, failing
/// that, `intronic`.
pub open spec fn label_parts(is_promoter: bool, is_exon: bool, is_intronic: bool) -> Seq<
    Seq<char>,
> {
    let head: Seq<Seq<char>> = if is_promoter {
        seq![PROMOTER@]
    } else {
        Seq::empty()
    };
    if is_exon {
        head.push(EXONIC@)
    } else if is_intronic {
        head.push(INTRONIC@)
    } else {
        head
    }
}

/// The labels that apply, joined by commas; empty when none does.
pub open spec fn label_of(is_promoter: bool, is_exon: bool, is_intronic: bool) -> Seq<char> {
    join(label_parts(is_promoter, is_exon, is_intronic), seq![','])
}

/// The label of a location against one gene: `intergenic` when the interval
/// misses the promoter window, else the labels that apply to its midpoint.
pub open spec fn location_label(
    loc: Location,
    f: GenomicFeature,
    r: TSSRegion,
    in_exon: bool,
) -> Seq<char> {
    if misses_promoter_window(loc, f, r) {
        INTERGENIC@
    } else {
        label_of(in_promoter(f, r, loc.spec_mid()), in_exon, in_gene_body(f, loc.spec_mid()))
    }
}

/// Joins the labels that apply.
pub fn make_label(is_promoter: bool, is_exon: bool, is_intronic: bool) -> (r: String)
    ensures
        r@ == label_of(is_promoter, is_exon, is_intronic),
{
    let mut labels: Vec<String> = Vec::with_capacity(2);
    if is_promoter {
        labels.push(String::from_str(PROMOTER));
    }
    if is_exon {
        labels.push(String::from_str(EXONIC));
    } else if is_intronic {
        labels.push(String::from_str(INTRONIC));
    }
    assert(views(labels@) =~= label_parts(is_promoter, is_exon, is_intronic));
    proof {
        reveal_strlit(",");
    }
    assert(","@ =~= seq![',']);
    join_strings(&labels, ",")
}

/// Whether the feature is on the negative strand.
fn is_negative(f: &GenomicFeature) -> (r: bool)
    ensures
        r == (f.spec_strand() == Strand::Neg),
{
    proof {
        reveal_strlit("-");
    }
    assert("-"@ =~= seq!['-']);
    str_eq(f.strand.as_str(), "-")
}

/// The gene's promoter window as its first and last base.
pub fn promoter_window(f: &GenomicFeature, r: &TSSRegion) -> (w: (i64, i64))
    ensures
        w.0 == promoter_start(*f, *r),
        w.1 == promoter_end(*f, *r),
{
    if is_negative(f) {
        (f.end as i64 - r.offset_3p() as i64, f.end as i64 + r.offset_5p() as i64)
    } else {
        (f.start as i64 - r.offset_5p() as i64, f.start as i64 + r.offset_3p() as i64)
    }
}

/// Signed distance from the location's midpoint to the gene's TSS.
pub fn tss_dist(location: &Location, f: &GenomicFeature) -> (d: i64)
    ensures
        d == tss_distance(*f, location.spec_mid()),
{
    let mid = location.mid() as i64;
    if is_negative(f) {
        f.end as i64 - mid
    } else {
        f.start as i64 - mid
    }
}

/// Whether the interval misses the gene's promoter window.
pub open spec fn misses_promoter_window(loc: Location, f: GenomicFeature, r: TSSRegion) -> bool {
    loc.start > promoter_end(f, r) || loc.end < promoter_start(f, r)
}

/// Whether labelling the location against the gene needs to know if the
/// location overlaps one of the gene's exons: not when the interval misses
/// the promoter window, where the label is `intergenic` whatever the exons.
pub fn needs_exon_query(location: &Location, feature: &GenomicFeature, tss_region: &TSSRegion) -> (r: bool)
    ensures
        r == !misses_promoter_window(*location, *feature, *tss_region),
        !r ==> location_label(*location, *feature, *tss_region, true) == location_label(
            *location,
            *feature,
            *tss_region,
            false,
        ),
{
    let (s, e) = promoter_window(feature, tss_region);
    !(location.start as i64 > e || (location.end as i64) < s)
}

/// The label of a location against one gene; `in_exon` tells whether the
/// location overlaps one of the gene's exons.
pub fn classify_location(
    location: &Location,
    feature: &GenomicFeature,
    tss_region: &TSSRegion,
    in_exon: bool,
) -> (r: String)
    ensures
        r@ == location_label(*location, *feature, *tss_region, in_exon),
{
    let (s, e) = promoter_window(feature, tss_region);
    if location.start as i64 > e || (location.end as i64) < s {
        return String::from_str(INTERGENIC);
    }
    let mid = location.mid() as i64;
    let is_promoter = s <= mid && mid <= e;
    let is_intronic = feature.start as i64 <= mid && mid <= feature.end as i64;
    make_label(is_promoter, in_exon, is_intronic)
}

} // verus!
