use gene_annotation::annotate::{ClosestGene, GeneAnnotation};
use gene_annotation::location::Location;
use gene_annotation::loctogene::{GenesError, TSSRegion};
use gene_annotation::table::{gene_table_headers, gene_table_row, make_gene_table};

fn annotation(closest: usize) -> GeneAnnotation {
    let mut closest_genes = Vec::new();
    for i in 0..closest {
        closest_genes.push(ClosestGene {
            gene_id: format!("C{}", i),
            gene_symbol: format!("c{}", i),
            prom_label: "intergenic".to_string(),
            tss_dist: -1200 - i as i32,
        });
    }
    GeneAnnotation {
        gene_ids: "G1;G2".to_string(),
        gene_symbols: "g1;g2".to_string(),
        prom_labels: "promoter;".to_string(),
        tss_dists: "-8;40".to_string(),
        closest_genes,
    }
}

#[test]
fn headers_per_slot() {
    let h = gene_table_headers(2, &TSSRegion::default());
    assert_eq!(h.len(), 13);
    assert_eq!(h[3], "Relative To Gene (prom=-2/+1kb)");
    assert_eq!(h[5], "#1 Closest ID");
    assert_eq!(h[7], "#1 Relative To Closet Gene (prom=-2/+1kb)");
    assert_eq!(h[12], "#2 TSS Closest Distance");
}

#[test]
fn row_fields() {
    let loc = Location::new("chr3", 10, 20).unwrap();
    let r = gene_table_row(&loc, &annotation(1));
    assert_eq!(r, vec!["chr3:10-20", "G1;G2", "g1;g2", "promoter;", "-8;40", "C0", "c0", "intergenic", "-1200"]);
}

#[test]
fn table_text() {
    let locs = vec![Location::new("chr3", 10, 20).unwrap()];
    let text = make_gene_table(&locs, &vec![annotation(1)], 1, &TSSRegion::new(2500, 1000)).unwrap();
    let expected = "Location\tID\tGene Symbol\tRelative To Gene (prom=-2/+1kb)\tTSS Distance\t#1 Closest ID\t#1 Closest Gene Symbols\t#1 Relative To Closet Gene (prom=-2/+1kb)\t#1 TSS Closest Distance\n\
chr3:10-20\tG1;G2\tg1;g2\tpromoter;\t-8;40\tC0\tc0\tintergenic\t-1200\n";
    assert_eq!(text, expected);
}

#[test]
fn table_with_no_locations_is_header_only() {
    let text = make_gene_table(&vec![], &vec![], 0, &TSSRegion::default()).unwrap();
    assert_eq!(text, "Location\tID\tGene Symbol\tRelative To Gene (prom=-2/+1kb)\tTSS Distance\n");
}

#[test]
fn short_nearest_list_is_format_error() {
    let locs = vec![Location::new("chr3", 10, 20).unwrap()];
    let r = make_gene_table(&locs, &vec![annotation(1)], 2, &TSSRegion::default());
    assert!(matches!(r, Err(GenesError::FormatError(_))));
}

#[test]
fn table_with_several_locations() {
    let locs = vec![Location::new("chr1", 1, 2).unwrap(), Location::new("chr2", 5, 9).unwrap()];
    let text = make_gene_table(&locs, &vec![annotation(0), annotation(0)], 0, &TSSRegion::default()).unwrap();
    let lines: Vec<&str> = text.lines().collect();
    assert_eq!(lines.len(), 3);
    assert_eq!(lines[1], "chr1:1-2\tG1;G2\tg1;g2\tpromoter;\t-8;40");
    assert_eq!(lines[2], "chr2:5-9\tG1;G2\tg1;g2\tpromoter;\t-8;40");
}
