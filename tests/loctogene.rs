use gene_annotation::loctogene::{GenesError, Level, Strand, TSSRegion};

#[test]
fn strand_from_text() {
    assert_eq!(Strand::from("-"), Strand::Neg);
    assert_eq!(Strand::from("+"), Strand::Plus);
    assert_eq!(Strand::from("x"), Strand::Plus);
    assert_eq!(Strand::Neg.to_string(), "-");
    assert_eq!(Strand::Plus.to_string(), "+");
}

#[test]
fn level_from_text_and_number() {
    assert_eq!(Level::from("transcript"), Level::Transcript);
    assert_eq!(Level::from("2"), Level::Transcript);
    assert_eq!(Level::from("exon"), Level::Exon);
    assert_eq!(Level::from("3"), Level::Exon);
    assert_eq!(Level::from("gene"), Level::Gene);
    assert_eq!(Level::from(2u8), Level::Transcript);
    assert_eq!(Level::from(3u8), Level::Exon);
    assert_eq!(Level::from(9u8), Level::Gene);
    assert_eq!(Level::Transcript.to_string(), "Transcript");
    assert_eq!(Level::Gene.to_string(), "Gene");
    assert_eq!(Level::Exon.to_string(), "Exon");
}

#[test]
fn tss_region_values() {
    let r = TSSRegion::new(500, 3000);
    assert_eq!(r.offset_5p(), 500);
    assert_eq!(r.offset_3p(), 3000);
    assert_eq!(r.search_pad(), 3000);
    assert_eq!(r.to_string(), "[500,3000]");
    let d = TSSRegion::default();
    assert_eq!(d.offset_5p(), 2000);
    assert_eq!(d.offset_3p(), 1000);
    assert_eq!(d.search_pad(), 2000);
}

#[test]
fn error_message() {
    assert_eq!(GenesError::DatabaseError("down".to_string()).to_string(), "down");
    assert_eq!(GenesError::FormatError("bad".to_string()).to_string(), "bad");
}

#[test]
fn level_number_round_trip() {
    for l in [Level::Gene, Level::Transcript, Level::Exon] {
        assert_eq!(Level::from(l.to_number()), l);
    }
    assert_eq!(Level::Gene.to_number(), 1);
    assert_eq!(Level::Transcript.to_number(), 2);
    assert_eq!(Level::Exon.to_number(), 3);
}
