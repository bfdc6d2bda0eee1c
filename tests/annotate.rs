use gene_annotation::annotate::{
    annotate_features, gene_hit, merge_hits, order_genes, GeneAnnotation, GeneProm,
};
use gene_annotation::location::Location;
use gene_annotation::loctogene::{GenomicFeature, TSSRegion};

fn feature(gene_id: &str, symbol: &str, start: u32, end: u32, strand: &str, dist: i32) -> GenomicFeature {
    GenomicFeature {
        id: 1,
        chr: "chr3".to_string(),
        start,
        end,
        strand: strand.to_string(),
        gene_id: gene_id.to_string(),
        gene_symbol: symbol.to_string(),
        dist,
    }
}

fn prom(gene_id: &str, is_promoter: bool, is_exon: bool, is_intronic: bool, d: i64) -> GeneProm {
    GeneProm {
        gene_id: gene_id.to_string(),
        gene_symbol: format!("{}_sym", gene_id),
        is_promoter,
        is_intronic,
        is_exon,
        d,
    }
}

#[test]
fn test_annotation() {
    let loc = Location::parse("chr3:187745448-187745468").unwrap();
    let gene = feature("GENE1", "G1", 187745450, 187750000, "+", -8);
    let a: GeneAnnotation = annotate_features(
        &loc,
        &TSSRegion::default(),
        &vec![gene.clone()],
        &vec![false],
        &vec![gene],
        &vec![false],
    );
    assert_eq!(a.gene_ids, "GENE1");
    assert_eq!(a.gene_symbols, "G1");
    assert_eq!(a.prom_labels, "promoter,intronic");
    assert_eq!(a.tss_dists, "-8");
    assert_eq!(a.closest_genes.len(), 1);
    assert_eq!(a.closest_genes[0].gene_id, "GENE1");
    assert_eq!(a.closest_genes[0].prom_label, "promoter,intronic");
    assert_eq!(a.closest_genes[0].tss_dist, -8);
}

#[test]
fn merge_keeps_nearest_distance_and_unites_flags() {
    let hits = vec![prom("G", false, true, false, 50), prom("G", true, false, false, -10)];
    let merged = merge_hits(&hits);
    assert_eq!(merged.len(), 1);
    assert!(merged[0].is_promoter);
    assert!(merged[0].is_exon);
    assert!(!merged[0].is_intronic);
    assert_eq!(merged[0].d, -10);
}

#[test]
fn merge_tie_keeps_first_distance() {
    let hits = vec![prom("G", false, false, true, 5), prom("G", false, false, false, -5)];
    let merged = merge_hits(&hits);
    assert_eq!(merged.len(), 1);
    assert_eq!(merged[0].d, 5);
    assert!(merged[0].is_intronic);
}

#[test]
fn merge_keeps_first_sighting_order_and_last_symbol() {
    let mut second = prom("A", false, false, false, 7);
    second.gene_symbol = "later".to_string();
    let hits = vec![prom("B", false, false, false, 3), prom("A", false, false, false, 9), second];
    let merged = merge_hits(&hits);
    assert_eq!(merged.len(), 2);
    assert_eq!(merged[0].gene_id, "B");
    assert_eq!(merged[1].gene_id, "A");
    assert_eq!(merged[1].gene_symbol, "later");
    assert_eq!(merged[1].d, 7);
}

#[test]
fn order_by_absolute_distance_then_id() {
    let genes = vec![
        prom("C", false, false, false, -4),
        prom("B", false, false, false, 4),
        prom("A", false, false, false, 10),
        prom("D", false, false, false, 0),
        prom("AB", false, false, false, 4),
    ];
    let sorted = order_genes(&genes);
    let ids: Vec<&str> = sorted.iter().map(|g| g.gene_id.as_str()).collect();
    assert_eq!(ids, vec!["D", "AB", "B", "C", "A"]);
}

#[test]
fn within_lists_are_ordered_and_co_indexed() {
    let loc = Location::new("chr1", 1000, 1000).unwrap();
    let fs = vec![
        feature("FAR", "far", 1500, 3000, "+", 0),
        feature("NEAR", "near", 1100, 2000, "+", 0),
        feature("NEG", "neg", 200, 900, "-", 0),
        feature("NEAR", "near", 990, 2000, "+", 0),
    ];
    let a = annotate_features(&loc, &TSSRegion::new(2000, 1000), &fs, &vec![false, true, false, false], &vec![], &vec![]);
    assert_eq!(a.gene_ids, "NEAR;NEG;FAR");
    assert_eq!(a.gene_symbols, "near;neg;far");
    assert_eq!(a.tss_dists, "-10;-100;500");
    assert_eq!(a.prom_labels, "promoter,exonic;promoter;promoter");
    assert_eq!(a.gene_ids.split(';').count(), 3);
    assert_eq!(a.prom_labels.split(';').count(), 3);
    assert!(a.closest_genes.is_empty());
}

#[test]
fn empty_within_gives_sentinel() {
    let loc = Location::new("chr1", 10, 20).unwrap();
    let a = annotate_features(&loc, &TSSRegion::default(), &vec![], &vec![], &vec![], &vec![]);
    assert_eq!(a.gene_ids, "n/a");
    assert_eq!(a.gene_symbols, "n/a");
    assert_eq!(a.tss_dists, "n/a");
    assert_eq!(a.prom_labels, "");
}

#[test]
fn annotation_is_deterministic() {
    let loc = Location::new("chr2", 5000, 5010).unwrap();
    let fs = vec![
        feature("X", "x", 5100, 9000, "+", 0),
        feature("Y", "y", 1000, 4905, "-", 0),
        feature("W", "w", 4000, 6000, "+", 0),
    ];
    let ex = vec![false, true, false];
    let cs = vec![feature("Y", "y", 1000, 4905, "-", -100)];
    let a = annotate_features(&loc, &TSSRegion::default(), &fs, &ex, &cs, &vec![true]);
    let b = annotate_features(&loc, &TSSRegion::default(), &fs, &ex, &cs, &vec![true]);
    assert_eq!(a.gene_ids, b.gene_ids);
    assert_eq!(a.gene_symbols, b.gene_symbols);
    assert_eq!(a.prom_labels, b.prom_labels);
    assert_eq!(a.tss_dists, b.tss_dists);
    assert_eq!(a.closest_genes.len(), b.closest_genes.len());
    assert_eq!(a.closest_genes[0].prom_label, b.closest_genes[0].prom_label);
    assert_eq!(a.gene_ids, "X;Y;W");
    assert_eq!(a.tss_dists, "95;-100;-1005");
}

#[test]
fn gene_hit_on_negative_strand() {
    let loc = Location::new("chr1", 900, 900).unwrap();
    let f = feature("N", "n", 100, 1000, "-", 0);
    let h = gene_hit(&loc, &f, &TSSRegion::new(2000, 1000), true);
    assert_eq!(h.d, 100);
    assert!(h.is_promoter);
    assert!(h.is_exon);
    assert!(h.is_intronic);
}
