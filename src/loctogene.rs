//! Gene features, strands, feature levels and the promoter window around a
//! transcription start site.

use vstd::prelude::*;

use crate::text::{nat_str, nat_to_string, str_eq};

verus! {

/// The strand a gene is transcribed from.
#[derive(Debug, Clone, Copy, PartialEq, Eq, Structural)]
pub enum Strand {
    Plus,
    Neg,
}

/// The strand a strand field names: `-` is the negative strand; anything
/// else, a malformed field included, counts as the positive strand.
pub open spec fn strand_of(s: Seq<char>) -> Strand {
    if s == seq!['-'] {
        Strand::Neg
    } else {
        Strand::Plus
    }
}

impl Strand {
    /// Reads a strand field.
    pub fn from_str(s: &str) -> (r: Strand)
        ensures
            r == strand_of(s@),
    {
        proof {
            reveal_strlit("-");
        }
        assert("-"@ =~= seq!['-']);
        if str_eq(s, "-") {
            Strand::Neg
        } else {
            Strand::Plus
        }
    }

    /// The strand as the one character `+` or `-`.
    pub fn to_string(&self) -> (r: String)
        ensures
            r@ == (if *self == Strand::Neg { seq!['-'] } else { seq!['+'] }),
    {
        proof {
            reveal_strlit("-");
            reveal_strlit("+");
        }
        match self {
            Strand::Neg => String::from_str("-"),
            Strand::Plus => String::from_str("+"),
        }
    }
}

impl<'a> vstd::std_specs::convert::FromSpecImpl<&'a str> for Strand {
    open spec fn obeys_from_spec() -> bool {
        true
    }

    open spec fn from_spec(v: &'a str) -> Strand {
        strand_of(v@)
    }
}

impl<'a> From<&'a str> for Strand {
    fn from(s: &'a str) -> (r: Strand)
        ensures
            r == strand_of(s@),
    {
        Strand::from_str(s)
    }
}

/// The granularity of a feature.
#[derive(Debug, Clone, Copy, PartialEq, Eq, Structural)]
pub enum Level {
    Gene,
    Transcript,
    Exon,
}

/// The level a level field names: `transcript` or `2`, `exon` or `3`; anything
/// else is a gene.
pub open spec fn level_of(s: Seq<char>) -> Level {
    if s == "transcript"@ || s == "2"@ {
        Level::Transcript
    } else if s == "exon"@ || s == "3"@ {
        Level::Exon
    } else {
        Level::Gene
    }
}

/// The level a level number names: 2 is a transcript, 3 an exon, anything else
/// a gene.
pub open spec fn level_of_number(n: u8) -> Level {
    if n == 2 {
        Level::Transcript
    } else if n == 3 {
        Level::Exon
    } else {
        Level::Gene
    }
}

/// The name of a level.
pub open spec fn level_name(l: Level) -> Seq<char> {
    match l {
        Level::Gene => "Gene"@,
        Level::Transcript => "Transcript"@,
        Level::Exon => "Exon"@,
    }
}

impl Level {
    /// Reads a level field.
    pub fn from_str(s: &str) -> (r: Level)
        ensures
            r == level_of(s@),
    {
        if str_eq(s, "transcript") || str_eq(s, "2") {
            Level::Transcript
        } else if str_eq(s, "exon") || str_eq(s, "3") {
            Level::Exon
        } else {
            Level::Gene
        }
    }

    /// Reads a level number.
    pub fn from_number(n: u8) -> (r: Level)
        ensures
            r == level_of_number(n),
    {
        if n == 2 {
            Level::Transcript
        } else if n == 3 {
            Level::Exon
        } else {
            Level::Gene
        }
    }

    /// The number a feature store keeps for the level: 1 for a gene, 2 for a
    /// transcript, 3 for an exon. Reading it back gives the level again.
    pub fn to_number(&self) -> (r: u8)
        ensures
            r == match *self {
                Level::Gene => 1u8,
                Level::Transcript => 2u8,
                Level::Exon => 3u8,
            },
            level_of_number(r) == *self,
    {
        match self {
            Level::Gene => 1,
            Level::Transcript => 2,
            Level::Exon => 3,
        }
    }

    /// The name of the level: `Gene`, `Transcript` or `Exon`.
    pub fn to_string(&self) -> (r: String)
        ensures
            r@ == level_name(*self),
    {
        match self {
            Level::Gene => String::from_str("Gene"),
            Level::Transcript => String::from_str("Transcript"),
            Level::Exon => String::from_str("Exon"),
        }
    }
}

impl<'a> vstd::std_specs::convert::FromSpecImpl<&'a str> for Level {
    open spec fn obeys_from_spec() -> bool {
        true
    }

    open spec fn from_spec(v: &'a str) -> Level {
        level_of(v@)
    }
}

impl<'a> From<&'a str> for Level {
    fn from(s: &'a str) -> (r: Level)
        ensures
            r == level_of(s@),
    {
        Level::from_str(s)
    }
}

impl vstd::std_specs::convert::FromSpecImpl<u8> for Level {
    open spec fn obeys_from_spec() -> bool {
        true
    }

    open spec fn from_spec(v: u8) -> Level {
        level_of_number(v)
    }
}

impl From<u8> for Level {
    fn from(n: u8) -> (r: Level)
        ensures
            r == level_of_number(n),
    {
        Level::from_number(n)
    }
}

/// Promoter window around a transcription start site, as two distances in
/// base pairs: upstream (5') and downstream (3') of the TSS.
#[derive(Debug, Clone, Copy, PartialEq, Eq, Structural)]
pub struct TSSRegion {
    offset_5p: u32,
    offset_3p: u32,
}

impl TSSRegion {
    pub closed spec fn spec_offset_5p(self) -> u32 {
        self.offset_5p
    }

    pub closed spec fn spec_offset_3p(self) -> u32 {
        self.offset_3p
    }

    pub fn new(offset_5p: u32, offset_3p: u32) -> (r: TSSRegion)
        ensures
            r.spec_offset_5p() == offset_5p,
            r.spec_offset_3p() == offset_3p,
    {
        TSSRegion { offset_5p, offset_3p }
    }

    #[verifier::when_used_as_spec(spec_offset_5p)]
    pub fn offset_5p(self) -> (r: u32)
        ensures
            r == self.spec_offset_5p(),
    {
        self.offset_5p
    }

    #[verifier::when_used_as_spec(spec_offset_3p)]
    pub fn offset_3p(self) -> (r: u32)
        ensures
            r == self.spec_offset_3p(),
    {
        self.offset_3p
    }

    /// How far an overlap search must reach past an interval on either side so
    /// that no promoter window touching the interval is missed: the larger
    /// offset.
    pub fn search_pad(self) -> (r: u32)
        ensures
            r as int == if self.spec_offset_5p() >= self.spec_offset_3p() {
                self.spec_offset_5p() as int
            } else {
                self.spec_offset_3p() as int
            },
    {
        if self.offset_5p >= self.offset_3p {
            self.offset_5p
        } else {
            self.offset_3p
        }
    }

    /// The window as `[offset_5p,offset_3p]`.
    pub fn to_string(self) -> (r: String)
        ensures
            r@ == "["@ + nat_str(self.spec_offset_5p() as nat) + ","@ + nat_str(
                self.spec_offset_3p() as nat,
            ) + "]"@,
    {
        let a = nat_to_string(self.offset_5p as u64);
        let b = nat_to_string(self.offset_3p as u64);
        String::from_str("[").concat(a.as_str()).concat(",").concat(b.as_str()).concat("]")
    }
}

impl Default for TSSRegion {
    /// 2000 bp upstream and 1000 bp downstream.
    fn default() -> (r: TSSRegion)
        ensures
            r.spec_offset_5p() == 2000,
            r.spec_offset_3p() == 1000,
    {
        TSSRegion { offset_5p: 2000, offset_3p: 1000 }
    }
}

/// A gene, transcript or exon as the feature store returns it. `dist` is
/// filled in by nearest-gene searches only: the signed distance from the
/// query's midpoint to the feature's stranded start.
#[derive(Debug, Clone)]
pub struct GenomicFeature {
    pub id: u32,
    pub chr: String,
    pub start: u32,
    pub end: u32,
    pub strand: String,
    pub gene_id: String,
    pub gene_symbol: String,
    pub dist: i32,
}

impl GenomicFeature {
    /// The strand the strand field names.
    pub open spec fn spec_strand(&self) -> Strand {
        strand_of(self.strand@)
    }

    /// The transcription start site: the start on the positive strand, the
    /// end on the negative one.
    pub open spec fn tss(&self) -> int {
        match self.spec_strand() {
            Strand::Plus => self.start as int,
            Strand::Neg => self.end as int,
        }
    }
}

/// Why an annotation failed.
#[derive(Debug, Clone)]
pub enum GenesError {
    /// The feature store could not answer a query.
    DatabaseError(String),
    /// Results could not be written out.
    FormatError(String),
    /// A location or a configuration value is malformed.
    InputError(String),
}

impl GenesError {
    /// The message the error carries.
    pub fn to_string(&self) -> (r: String)
        ensures
            r@ == match self {
                GenesError::DatabaseError(m) => m@,
                GenesError::FormatError(m) => m@,
                GenesError::InputError(m) => m@,
            },
    {
        match self {
            GenesError::DatabaseError(m) => m.clone(),
            GenesError::FormatError(m) => m.clone(),
            GenesError::InputError(m) => m.clone(),
        }
    }
}

} // verus!
