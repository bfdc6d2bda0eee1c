use gene_annotation::classify::{classify_location, make_label, needs_exon_query, promoter_window, tss_dist};
use gene_annotation::location::Location;
use gene_annotation::loctogene::{GenomicFeature, TSSRegion};

fn feature(start: u32, end: u32, strand: &str) -> GenomicFeature {
    GenomicFeature {
        id: 7,
        chr: "chr3".to_string(),
        start,
        end,
        strand: strand.to_string(),
        gene_id: "GENE1".to_string(),
        gene_symbol: "G1".to_string(),
        dist: 0,
    }
}

#[test]
fn labels_in_order() {
    assert_eq!(make_label(true, true, true), "promoter,exonic");
    assert_eq!(make_label(true, false, true), "promoter,intronic");
    assert_eq!(make_label(false, false, true), "intronic");
    assert_eq!(make_label(false, true, false), "exonic");
    assert_eq!(make_label(true, false, false), "promoter");
    assert_eq!(make_label(false, false, false), "");
}

#[test]
fn distance_sign_follows_strand() {
    let loc = Location::new("chr1", 900, 900).unwrap();
    assert_eq!(tss_dist(&loc, &feature(1000, 5000, "+")), 100);
    assert_eq!(tss_dist(&loc, &feature(200, 1000, "-")), 100);
    assert_eq!(tss_dist(&loc, &feature(800, 5000, "+")), -100);
}

#[test]
fn malformed_strand_counts_as_plus() {
    let loc = Location::new("chr1", 900, 900).unwrap();
    assert_eq!(tss_dist(&loc, &feature(1000, 5000, "?")), 100);
    assert_eq!(promoter_window(&feature(1000, 5000, "."), &TSSRegion::new(20, 10)), (980, 1010));
}

#[test]
fn promoter_windows_mirror_by_strand() {
    let r = TSSRegion::new(2000, 1000);
    assert_eq!(promoter_window(&feature(187745450, 187750000, "+"), &r), (187743450, 187746450));
    assert_eq!(promoter_window(&feature(100, 5000, "-"), &r), (4000, 7000));
    assert_eq!(promoter_window(&feature(500, 900, "+"), &r), (-1500, 1500));
}

#[test]
fn location_inside_window_is_promoter() {
    let r = TSSRegion::new(2000, 1000);
    let f = feature(187745450, 187750000, "+");
    let inside = Location::new("chr3", 187743450, 187746450).unwrap();
    assert!(classify_location(&inside, &f, &r, false).contains("promoter"));
    let small = Location::new("chr3", 187744000, 187744100).unwrap();
    assert_eq!(classify_location(&small, &f, &r, false), "promoter");
}

#[test]
fn location_outside_window_is_intergenic() {
    let r = TSSRegion::new(2000, 1000);
    let f = feature(187745450, 187750000, "+");
    let before = Location::new("chr3", 187740000, 187743449).unwrap();
    assert_eq!(classify_location(&before, &f, &r, true), "intergenic");
    let after = Location::new("chr3", 187746451, 187748000).unwrap();
    assert_eq!(classify_location(&after, &f, &r, false), "intergenic");
}

#[test]
fn touching_window_without_midpoint_inside() {
    let r = TSSRegion::new(2000, 1000);
    let f = feature(187745450, 187750000, "+");
    let loc = Location::new("chr3", 187746000, 187748000).unwrap();
    assert_eq!(classify_location(&loc, &f, &r, false), "intronic");
    assert_eq!(classify_location(&loc, &f, &r, true), "exonic");
    let before = Location::new("chr3", 187740000, 187743500).unwrap();
    assert_eq!(classify_location(&before, &f, &r, false), "");
}

#[test]
fn exon_query_needed_only_inside_window() {
    let r = TSSRegion::new(2000, 1000);
    let f = feature(187745450, 187750000, "+");
    let inside = Location::new("chr3", 187745448, 187745468).unwrap();
    assert!(needs_exon_query(&inside, &f, &r));
    let after = Location::new("chr3", 187746451, 187748000).unwrap();
    assert!(!needs_exon_query(&after, &f, &r));
}
