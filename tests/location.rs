use gene_annotation::location::Location;
use gene_annotation::loctogene::GenesError;

#[test]
fn parse_and_print() {
    let l = Location::parse("chr3:187745448-187745468").unwrap();
    assert_eq!(l.chr, "chr3");
    assert_eq!(l.start, 187745448);
    assert_eq!(l.end, 187745468);
    assert_eq!(l.mid(), 187745458);
    assert_eq!(l.to_string(), "chr3:187745448-187745468");
}

#[test]
fn parse_rejects_malformed_text() {
    for t in ["chr3", ":1-2", "chr3:12", "chr3:1-", "chr3:-5", "chr3:1x-5", "chr3:1-5-6", "chr3:5-1", "chr3:1-4294967296"] {
        match Location::parse(t) {
            Err(GenesError::InputError(_)) => {}
            _ => panic!("accepted {}", t),
        }
    }
}

#[test]
fn parse_accepts_largest_coordinate() {
    let l = Location::parse("chrX:0-4294967295").unwrap();
    assert_eq!(l.start, 0);
    assert_eq!(l.end, u32::MAX);
    assert_eq!(l.mid(), 2147483647);
}

#[test]
fn new_rejects_reversed_interval() {
    assert!(matches!(Location::new("chr1", 10, 9), Err(GenesError::InputError(_))));
    let l = Location::new("chr1", 9, 9).unwrap();
    assert_eq!(l.mid(), 9);
}
