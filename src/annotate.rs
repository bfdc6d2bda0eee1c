//! Per-gene aggregation of transcript hits, deterministic ordering, and the
//! assembly of a location's annotation.

use vstd::prelude::*;

use crate::classify::{
    classify_location, in_gene_body, in_promoter, label_of, location_label, make_label,
    promoter_window, tss_dist, tss_distance, NA,
};
use crate::location::Location;
use crate::loctogene::{GenomicFeature, TSSRegion};
use crate::text::{
    int_str, int_to_string, join, join_strings, views, lemma_lex_le_antisymmetric, lemma_lex_le_total, lemma_lex_le_transitive, lex_le, str_eq, str_le,
};

verus! {

/// What is known of one gene at a location: which labels apply and the signed
/// distance to its TSS. One transcript gives one of these; several transcripts
/// of a gene merge into one.
#[derive(Debug)]
pub struct GeneProm {
    pub gene_id: String,
    pub gene_symbol: String,
    pub is_promoter: bool,
    pub is_intronic: bool,
    pub is_exon: bool,
    pub d: i64,
}

/// The mathematical value of a [`GeneProm`].
pub struct GenePromView {
    pub gene_id: Seq<char>,
    pub gene_symbol: Seq<char>,
    pub is_promoter: bool,
    pub is_intronic: bool,
    pub is_exon: bool,
    pub d: int,
}

impl View for GeneProm {
    type V = GenePromView;

    open spec fn view(&self) -> GenePromView {
        GenePromView {
            gene_id: self.gene_id@,
            gene_symbol: self.gene_symbol@,
            is_promoter: self.is_promoter,
            is_intronic: self.is_intronic,
            is_exon: self.is_exon,
            d: self.d as int,
        }
    }
}

pub open spec fn abs(x: int) -> int {
    if x < 0 {
        -x
    } else {
        x
    }
}

/// The views of a sequence of gene records.
pub open spec fn prom_views(v: Seq<GeneProm>) -> Seq<GenePromView> {
    v.map_values(|g: GeneProm| g@)
}

/// The gene ids of a sequence of gene records.
pub open spec fn gene_ids(v: Seq<GenePromView>) -> Seq<Seq<char>> {
    v.map_values(|g: GenePromView| g.gene_id)
}

/// Whether `a` is the annotation of `loc` given the store's answers: the
/// overlapping transcripts `fs` with their exon flags, and the nearest genes
/// `cfs` with theirs.
pub open spec fn is_annotation_of(
    a: GeneAnnotation,
    loc: Location,
    r: TSSRegion,
    fs: Seq<GenomicFeature>,
    exons: Seq<bool>,
    cfs: Seq<GenomicFeature>,
    cexons: Seq<bool>,
) -> bool {
    let g = within_genes(loc, fs, exons, r);
    &&& a.gene_ids@ == join(within_ids(g), seq![';'])
    &&& a.gene_symbols@ == join(within_symbols(g), seq![';'])
    &&& a.prom_labels@ == join(within_labels(g), seq![';'])
    &&& a.tss_dists@ == join(within_dists(g), seq![';'])
    &&& a.closest_genes@.len() == cfs.len()
    &&& forall|i: int|
        0 <= i < cfs.len() ==> closest_gene_of(#[trigger] a.closest_genes@[i], loc, cfs[i], r, cexons[i])
}

/// What one transcript tells of its gene at a location.
pub open spec fn hit_of(loc: Location, f: GenomicFeature, r: TSSRegion, in_exon: bool) -> GenePromView {
    GenePromView {
        gene_id: f.gene_id@,
        gene_symbol: f.gene_symbol@,
        is_promoter: in_promoter(f, r, loc.spec_mid()),
        is_intronic: in_gene_body(f, loc.spec_mid()),
        is_exon: in_exon,
        d: tss_distance(f, loc.spec_mid()),
    }
}

/// The hits of a list of transcripts, each with its exon flag.
pub open spec fn hits_of(
    loc: Location,
    fs: Seq<GenomicFeature>,
    exons: Seq<bool>,
    r: TSSRegion,
) -> Seq<GenePromView> {
    Seq::new(fs.len(), |i: int| hit_of(loc, fs[i], r, exons[i]))
}

/// Folds a later hit into a gene's record: flags are or-ed, the symbol is the
/// later one, and the distance is replaced only by a strictly nearer one.
pub open spec fn merge_prom(acc: GenePromView, h: GenePromView) -> GenePromView {
    GenePromView {
        gene_id: acc.gene_id,
        gene_symbol: h.gene_symbol,
        is_promoter: acc.is_promoter || h.is_promoter,
        is_intronic: acc.is_intronic || h.is_intronic,
        is_exon: acc.is_exon || h.is_exon,
        d: if abs(h.d) < abs(acc.d) {
            h.d
        } else {
            acc.d
        },
    }
}

/// Whether some record is for gene `id`.
pub open spec fn has_gene(genes: Seq<GenePromView>, id: Seq<char>) -> bool {
    exists|k: int| 0 <= k < genes.len() && #[trigger] genes[k].gene_id == id
}

/// The position of the record for gene `id`.
pub open spec fn gene_index(genes: Seq<GenePromView>, id: Seq<char>) -> int {
    choose|k: int| 0 <= k < genes.len() && #[trigger] genes[k].gene_id == id
}

/// One record per gene, in order of first sighting: the first hit of a gene
/// starts its record, later hits merge into it.
pub open spec fn fold_hits(hits: Seq<GenePromView>) -> Seq<GenePromView>
    decreases hits.len(),
{
    if hits.len() == 0 {
        Seq::empty()
    } else {
        let acc = fold_hits(hits.drop_last());
        let h = hits.last();
        if has_gene(acc, h.gene_id) {
            let k = gene_index(acc, h.gene_id);
            acc.update(k, merge_prom(acc[k], h))
        } else {
            acc.push(h)
        }
    }
}

/// Each gene has at most one record.
pub open spec fn unique_ids(genes: Seq<GenePromView>) -> bool {
    forall|i: int, j: int|
        0 <= i < genes.len() && 0 <= j < genes.len() && i != j ==> genes[i].gene_id
            != genes[j].gene_id
}

/// The fold keeps one record per gene, and holds a record for exactly the
/// genes that were hit.
pub proof fn lemma_fold_hits_genes(hits: Seq<GenePromView>)
    ensures
        unique_ids(fold_hits(hits)),
        forall|id: Seq<char>| has_gene(fold_hits(hits), id) <==> has_gene(hits, id),
    decreases hits.len(),
{
    if hits.len() > 0 {
        let prev = hits.drop_last();
        lemma_fold_hits_genes(prev);
        let acc = fold_hits(prev);
        let h = hits.last();
        let r = fold_hits(hits);
        if has_gene(acc, h.gene_id) {
            let k = gene_index(acc, h.gene_id);
            assert(r[k].gene_id == acc[k].gene_id);
            assert forall|i: int| 0 <= i < r.len() implies r[i].gene_id == acc[i].gene_id by {}
            assert forall|id: Seq<char>| has_gene(r, id) <==> has_gene(hits, id) by {
                if has_gene(r, id) {
                    let i = choose|i: int| 0 <= i < r.len() && #[trigger] r[i].gene_id == id;
                    assert(acc[i].gene_id == id);
                    assert(has_gene(acc, id));
                    assert(has_gene(prev, id));
                    let j = choose|j: int| 0 <= j < prev.len() && #[trigger] prev[j].gene_id == id;
                    assert(hits[j].gene_id == id);
                }
                if has_gene(hits, id) {
                    let j = choose|j: int| 0 <= j < hits.len() && #[trigger] hits[j].gene_id == id;
                    if j < prev.len() {
                        assert(prev[j].gene_id == id);
                        assert(has_gene(prev, id));
                        assert(has_gene(acc, id));
                        let i = choose|i: int| 0 <= i < acc.len() && #[trigger] acc[i].gene_id == id;
                        assert(r[i].gene_id == id);
                    } else {
                        assert(r[k].gene_id == id);
                    }
                }
            }
        } else {
            assert forall|i: int, j: int|
                0 <= i < r.len() && 0 <= j < r.len() && i != j implies r[i].gene_id
                != r[j].gene_id by {
                if i == acc.len() as int {
                    assert(acc[j].gene_id == r[j].gene_id);
                } else if j == acc.len() as int {
                    assert(acc[i].gene_id == r[i].gene_id);
                }
            }
            assert forall|id: Seq<char>| has_gene(r, id) <==> has_gene(hits, id) by {
                if has_gene(r, id) {
                    let i = choose|i: int| 0 <= i < r.len() && #[trigger] r[i].gene_id == id;
                    if i < acc.len() {
                        assert(acc[i].gene_id == id);
                        assert(has_gene(acc, id));
                        assert(has_gene(prev, id));
                        let j = choose|j: int| 0 <= j < prev.len() && #[trigger] prev[j].gene_id == id;
                        assert(hits[j].gene_id == id);
                    } else {
                        assert(hits[hits.len() - 1].gene_id == id);
                    }
                }
                if has_gene(hits, id) {
                    let j = choose|j: int| 0 <= j < hits.len() && #[trigger] hits[j].gene_id == id;
                    if j < prev.len() {
                        assert(prev[j].gene_id == id);
                        assert(has_gene(prev, id));
                        assert(has_gene(acc, id));
                        let i = choose|i: int| 0 <= i < acc.len() && #[trigger] acc[i].gene_id == id;
                        assert(r[i].gene_id == id);
                    } else {
                        assert(r[acc.len() as int].gene_id == id);
                    }
                }
            }
        }
    }
}

impl GeneProm {
    /// A record with the same contents.
    pub fn copy(&self) -> (r: GeneProm)
        ensures
            r@ == self@,
    {
        GeneProm {
            gene_id: self.gene_id.clone(),
            gene_symbol: self.gene_symbol.clone(),
            is_promoter: self.is_promoter,
            is_intronic: self.is_intronic,
            is_exon: self.is_exon,
            d: self.d,
        }
    }
}

/// The absolute value of a distance.
fn abs_i64(x: i64) -> (r: u64)
    ensures
        r as int == abs(x as int),
{
    if x < 0 {
        (-(x as i128)) as u64
    } else {
        x as u64
    }
}

/// Folds a later hit into a gene's record.
pub fn merge_prom_into(acc: &GeneProm, h: &GeneProm) -> (r: GeneProm)
    ensures
        r@ == merge_prom(acc@, h@),
{
    let d = if abs_i64(h.d) < abs_i64(acc.d) {
        h.d
    } else {
        acc.d
    };
    GeneProm {
        gene_id: acc.gene_id.clone(),
        gene_symbol: h.gene_symbol.clone(),
        is_promoter: acc.is_promoter || h.is_promoter,
        is_intronic: acc.is_intronic || h.is_intronic,
        is_exon: acc.is_exon || h.is_exon,
        d,
    }
}

/// Collapses transcript hits into one record per gene, in order of first
/// sighting.
pub fn merge_hits(hits: &Vec<GeneProm>) -> (r: Vec<GeneProm>)
    ensures
        prom_views(r@) == fold_hits(prom_views(hits@)),
{
    let mut acc: Vec<GeneProm> = Vec::new();
    let mut i: usize = 0;
    while i < hits.len()
        invariant
            i <= hits@.len(),
            prom_views(acc@) == fold_hits(prom_views(hits@).subrange(0, i as int)),
        decreases hits@.len() - i,
    {
        let ghost prefix = prom_views(hits@).subrange(0, i as int);
        let ghost next = prom_views(hits@).subrange(0, i + 1);
        proof {
            assert(next.drop_last() =~= prefix);
            lemma_fold_hits_genes(prefix);
        }
        let h = &hits[i];
        let mut k: usize = 0;
        let mut found = false;
        while !found && k < acc.len()
            invariant
                k <= acc@.len(),
                forall|j: int| 0 <= j < k ==> acc@[j].gene_id@ != h.gene_id@,
                found ==> k < acc@.len() && acc@[k as int].gene_id@ == h.gene_id@,
            decreases acc@.len() - k + (if found { 0int } else { 1int }),
        {
            if str_eq(acc[k].gene_id.as_str(), h.gene_id.as_str()) {
                found = true;
            } else {
                k = k + 1;
            }
        }
        let ghost av = prom_views(acc@);
        if found {
            proof {
                assert(av[k as int].gene_id == h@.gene_id);
                assert(has_gene(av, h@.gene_id));
                let c = gene_index(av, h@.gene_id);
                assert(c == k);
            }
            let merged = merge_prom_into(&acc[k], h);
            acc.set(k, merged);
            assert(prom_views(acc@) =~= av.update(k as int, merge_prom(av[k as int], h@)));
        } else {
            proof {
                assert(!has_gene(av, h@.gene_id)) by {
                    if has_gene(av, h@.gene_id) {
                        let j = choose|j: int| 0 <= j < av.len() && #[trigger] av[j].gene_id == h@.gene_id;
                        assert(acc@[j].gene_id@ == h.gene_id@);
                    }
                }
            }
            acc.push(h.copy());
            assert(prom_views(acc@) =~= av.push(h@));
        }
        i = i + 1;
    }
    assert(prom_views(hits@).subrange(0, hits@.len() as int) =~= prom_views(hits@));
    acc
}

/// Whether record `a` is listed before record `b`: the nearer TSS first, and
/// at equal distance the smaller gene id first.
pub open spec fn gene_before(a: GenePromView, b: GenePromView) -> bool {
    abs(a.d) < abs(b.d) || (abs(a.d) == abs(b.d) && lex_le(a.gene_id, b.gene_id))
}

/// Inserts `g` before the first record that it is listed before.
pub open spec fn insert_sorted(s: Seq<GenePromView>, g: GenePromView) -> Seq<GenePromView>
    decreases s.len(),
{
    if s.len() == 0 {
        seq![g]
    } else if gene_before(g, s[0]) {
        seq![g] + s
    } else {
        seq![s[0]] + insert_sorted(s.drop_first(), g)
    }
}

/// The records in listing order.
pub open spec fn sort_genes(s: Seq<GenePromView>) -> Seq<GenePromView>
    decreases s.len(),
{
    if s.len() == 0 {
        Seq::empty()
    } else {
        insert_sorted(sort_genes(s.drop_last()), s.last())
    }
}

/// Every record is listed before every later one.
pub open spec fn genes_sorted(s: Seq<GenePromView>) -> bool {
    forall|i: int, j: int| 0 <= i < j < s.len() ==> gene_before(s[i], s[j])
}

proof fn lemma_gene_before_total(a: GenePromView, b: GenePromView)
    ensures
        gene_before(a, b) || gene_before(b, a),
{
    lemma_lex_le_total(a.gene_id, b.gene_id);
}

proof fn lemma_gene_before_transitive(a: GenePromView, b: GenePromView, c: GenePromView)
    requires
        gene_before(a, b),
        gene_before(b, c),
    ensures
        gene_before(a, c),
{
    if abs(a.d) == abs(b.d) && abs(b.d) == abs(c.d) {
        lemma_lex_le_transitive(a.gene_id, b.gene_id, c.gene_id);
    }
}

proof fn lemma_insert_sorted_contents(s: Seq<GenePromView>, g: GenePromView)
    ensures
        insert_sorted(s, g).len() == s.len() + 1,
        forall|x: GenePromView| #[trigger]
            insert_sorted(s, g).contains(x) <==> (x == g || s.contains(x)),
    decreases s.len(),
{
    if s.len() > 0 && !gene_before(g, s[0]) {
        let t = s.drop_first();
        lemma_insert_sorted_contents(t, g);
        let r = insert_sorted(s, g);
        assert forall|x: GenePromView| r.contains(x) <==> (x == g || s.contains(x)) by {
            if r.contains(x) {
                let k = choose|k: int| 0 <= k < r.len() && r[k] == x;
                if k > 0 {
                    assert(insert_sorted(t, g)[k - 1] == x);
                    assert(insert_sorted(t, g).contains(x));
                    if t.contains(x) {
                        let m = choose|m: int| 0 <= m < t.len() && t[m] == x;
                        assert(s[m + 1] == x);
                    }
                } else {
                    assert(s[0] == x);
                }
            }
            if x == g || s.contains(x) {
                if x == g {
                    assert(insert_sorted(t, g).contains(x));
                } else {
                    let m = choose|m: int| 0 <= m < s.len() && s[m] == x;
                    if m > 0 {
                        assert(t[m - 1] == x);
                        assert(insert_sorted(t, g).contains(x));
                    } else {
                        assert(r[0] == x);
                    }
                }
                if insert_sorted(t, g).contains(x) {
                    let k = choose|k: int| 0 <= k < insert_sorted(t, g).len() && insert_sorted(t, g)[k] == x;
                    assert(r[k + 1] == x);
                }
            }
        }
    } else if s.len() > 0 {
        let r = insert_sorted(s, g);
        assert forall|x: GenePromView| r.contains(x) <==> (x == g || s.contains(x)) by {
            if r.contains(x) {
                let k = choose|k: int| 0 <= k < r.len() && r[k] == x;
                if k > 0 {
                    assert(s[k - 1] == x);
                }
            }
            if s.contains(x) {
                let m = choose|m: int| 0 <= m < s.len() && s[m] == x;
                assert(r[m + 1] == x);
            }
            if x == g {
                assert(r[0] == x);
            }
        }
    } else {
        assert(insert_sorted(s, g)[0] == g);
    }
}

proof fn lemma_insert_sorted_sorted(s: Seq<GenePromView>, g: GenePromView)
    requires
        genes_sorted(s),
    ensures
        genes_sorted(insert_sorted(s, g)),
    decreases s.len(),
{
    if s.len() > 0 {
        let r = insert_sorted(s, g);
        if gene_before(g, s[0]) {
            assert forall|i: int, j: int| 0 <= i < j < r.len() implies gene_before(r[i], r[j]) by {
                if i == 0 {
                    if j > 1 {
                        lemma_gene_before_transitive(g, s[0], s[j - 1]);
                    }
                } else {
                    assert(r[i] == s[i - 1] && r[j] == s[j - 1]);
                }
            }
        } else {
            let t = s.drop_first();
            let u = insert_sorted(t, g);
            lemma_insert_sorted_sorted(t, g);
            lemma_insert_sorted_contents(t, g);
            lemma_gene_before_total(g, s[0]);
            assert forall|i: int, j: int| 0 <= i < j < r.len() implies gene_before(r[i], r[j]) by {
                if i == 0 {
                    assert(r[j] == u[j - 1]);
                    assert(u.contains(u[j - 1]));
                    if u[j - 1] != g {
                        assert(t.contains(u[j - 1]));
                        let m = choose|m: int| 0 <= m < t.len() && t[m] == u[j - 1];
                        assert(s[m + 1] == t[m]);
                    }
                } else {
                    assert(r[i] == u[i - 1] && r[j] == u[j - 1]);
                }
            }
        }
    }
}

/// Inserting before the first record that `g` is listed before.
proof fn lemma_insert_sorted_at(s: Seq<GenePromView>, g: GenePromView, p: int)
    requires
        0 <= p <= s.len(),
        forall|j: int| 0 <= j < p ==> !gene_before(g, #[trigger] s[j]),
        p == s.len() || gene_before(g, s[p]),
    ensures
        insert_sorted(s, g) == s.insert(p, g),
    decreases p,
{
    if p == 0 {
        assert(insert_sorted(s, g) =~= s.insert(p, g));
    } else {
        let t = s.drop_first();
        assert(!gene_before(g, s[0]));
        assert forall|j: int| 0 <= j < p - 1 implies !gene_before(g, #[trigger] t[j]) by {
            assert(t[j] == s[j + 1]);
        }
        lemma_insert_sorted_at(t, g, p - 1);
        assert(insert_sorted(s, g) =~= s.insert(p, g));
    }
}

/// The listing order is sorted, and lists each record once.
pub proof fn lemma_sort_genes(s: Seq<GenePromView>)
    ensures
        genes_sorted(sort_genes(s)),
        sort_genes(s).len() == s.len(),
        forall|x: GenePromView| #[trigger] sort_genes(s).contains(x) <==> s.contains(x),
    decreases s.len(),
{
    if s.len() > 0 {
        let prev = s.drop_last();
        lemma_sort_genes(prev);
        lemma_insert_sorted_sorted(sort_genes(prev), s.last());
        lemma_insert_sorted_contents(sort_genes(prev), s.last());
        assert forall|x: GenePromView| sort_genes(s).contains(x) <==> s.contains(x) by {
            if prev.contains(x) {
                let m = choose|m: int| 0 <= m < prev.len() && prev[m] == x;
                assert(s[m] == x);
            }
            if s.contains(x) {
                let m = choose|m: int| 0 <= m < s.len() && s[m] == x;
                if m < prev.len() {
                    assert(prev[m] == x);
                }
            }
        }
    }
}

proof fn lemma_insert_sorted_unique(t: Seq<GenePromView>, g: GenePromView)
    requires
        unique_ids(t),
        !has_gene(t, g.gene_id),
    ensures
        unique_ids(insert_sorted(t, g)),
    decreases t.len(),
{
    if t.len() > 0 {
        let r = insert_sorted(t, g);
        if gene_before(g, t[0]) {
            assert forall|i: int, j: int|
                0 <= i < r.len() && 0 <= j < r.len() && i != j implies r[i].gene_id
                != r[j].gene_id by {
                if i == 0 {
                    assert(r[j] == t[j - 1]);
                } else if j == 0 {
                    assert(r[i] == t[i - 1]);
                } else {
                    assert(r[i] == t[i - 1] && r[j] == t[j - 1]);
                }
            }
        } else {
            let t1 = t.drop_first();
            let u = insert_sorted(t1, g);
            assert(!has_gene(t1, g.gene_id)) by {
                if has_gene(t1, g.gene_id) {
                    let m = choose|m: int| 0 <= m < t1.len() && #[trigger] t1[m].gene_id == g.gene_id;
                    assert(t[m + 1].gene_id == g.gene_id);
                }
            }
            lemma_insert_sorted_unique(t1, g);
            lemma_insert_sorted_contents(t1, g);
            assert forall|k: int| 0 <= k < u.len() implies #[trigger] u[k].gene_id != t[0].gene_id by {
                assert(u.contains(u[k]));
                if u[k] == g {
                    assert(t[0].gene_id != g.gene_id);
                } else {
                    assert(t1.contains(u[k]));
                    let m = choose|m: int| 0 <= m < t1.len() && t1[m] == u[k];
                    assert(t[m + 1] == u[k]);
                }
            }
            assert forall|i: int, j: int|
                0 <= i < r.len() && 0 <= j < r.len() && i != j implies r[i].gene_id
                != r[j].gene_id by {
                if i == 0 {
                    assert(r[j] == u[j - 1]);
                } else if j == 0 {
                    assert(r[i] == u[i - 1]);
                } else {
                    assert(r[i] == u[i - 1] && r[j] == u[j - 1]);
                }
            }
        }
    }
}

proof fn lemma_sort_genes_unique(s: Seq<GenePromView>)
    requires
        unique_ids(s),
    ensures
        unique_ids(sort_genes(s)),
    decreases s.len(),
{
    if s.len() > 0 {
        let prev = s.drop_last();
        let t = sort_genes(prev);
        let g = s.last();
        assert(unique_ids(prev)) by {
            assert forall|i: int, j: int|
                0 <= i < prev.len() && 0 <= j < prev.len() && i != j implies prev[i].gene_id
                != prev[j].gene_id by {
                assert(prev[i] == s[i] && prev[j] == s[j]);
            }
        }
        lemma_sort_genes_unique(prev);
        lemma_sort_genes(prev);
        assert(!has_gene(t, g.gene_id)) by {
            if has_gene(t, g.gene_id) {
                let k = choose|k: int| 0 <= k < t.len() && #[trigger] t[k].gene_id == g.gene_id;
                assert(t.contains(t[k]));
                assert(prev.contains(t[k]));
                let m = choose|m: int| 0 <= m < prev.len() && prev[m] == t[k];
                assert(s[m].gene_id == s[s.len() - 1].gene_id);
            }
        }
        lemma_insert_sorted_unique(t, g);
    }
}

/// Two sorted sequences with one record per gene and the same records are
/// the same sequence.
proof fn lemma_sorted_unique_equal(a: Seq<GenePromView>, b: Seq<GenePromView>)
    requires
        genes_sorted(a),
        genes_sorted(b),
        unique_ids(a),
        unique_ids(b),
        forall|x: GenePromView| a.contains(x) <==> b.contains(x),
    ensures
        a == b,
    decreases a.len(),
{
    if a.len() == 0 {
        if b.len() > 0 {
            assert(b.contains(b[0]));
        }
        assert(a =~= b);
    } else {
        assert(a.contains(a[0]));
        assert(b.contains(a[0]));
        assert(b.contains(b[0]));
        assert(a.contains(b[0]));
        let m = choose|m: int| 0 <= m < b.len() && b[m] == a[0];
        let n = choose|n: int| 0 <= n < a.len() && a[n] == b[0];
        if m != 0 && n != 0 {
            assert(gene_before(b[0], b[m]));
            assert(gene_before(a[0], a[n]));
            lemma_lex_le_antisymmetric(a[0].gene_id, a[n].gene_id);
            assert(false);
        }
        assert(a[0] == b[0]);
        let a1 = a.drop_first();
        let b1 = b.drop_first();
        assert forall|x: GenePromView| a1.contains(x) <==> b1.contains(x) by {
            if a1.contains(x) {
                let k = choose|k: int| 0 <= k < a1.len() && a1[k] == x;
                assert(a[k + 1] == x);
                assert(a.contains(x));
                assert(x != a[0]);
                assert(b.contains(x));
                let j = choose|j: int| 0 <= j < b.len() && b[j] == x;
                assert(j != 0);
                assert(b1[j - 1] == x);
            }
            if b1.contains(x) {
                let k = choose|k: int| 0 <= k < b1.len() && b1[k] == x;
                assert(b[k + 1] == x);
                assert(b.contains(x));
                assert(x != b[0]);
                assert(a.contains(x));
                let j = choose|j: int| 0 <= j < a.len() && a[j] == x;
                assert(j != 0);
                assert(a1[j - 1] == x);
            }
        }
        assert(genes_sorted(a1)) by {
            assert forall|i: int, j: int| 0 <= i < j < a1.len() implies gene_before(a1[i], a1[j]) by {
                assert(a1[i] == a[i + 1] && a1[j] == a[j + 1]);
            }
        }
        assert(genes_sorted(b1)) by {
            assert forall|i: int, j: int| 0 <= i < j < b1.len() implies gene_before(b1[i], b1[j]) by {
                assert(b1[i] == b[i + 1] && b1[j] == b[j + 1]);
            }
        }
        assert(unique_ids(a1)) by {
            assert forall|i: int, j: int|
                0 <= i < a1.len() && 0 <= j < a1.len() && i != j implies a1[i].gene_id
                != a1[j].gene_id by {
                assert(a1[i] == a[i + 1] && a1[j] == a[j + 1]);
            }
        }
        assert(unique_ids(b1)) by {
            assert forall|i: int, j: int|
                0 <= i < b1.len() && 0 <= j < b1.len() && i != j implies b1[i].gene_id
                != b1[j].gene_id by {
                assert(b1[i] == b[i + 1] && b1[j] == b[j + 1]);
            }
        }
        lemma_sorted_unique_equal(a1, b1);
        assert(a =~= seq![a[0]] + a1);
        assert(b =~= seq![b[0]] + b1);
    }
}

/// The listing order depends only on which records there are, not on the
/// order in which they come: two sequences holding the same records, one per
/// gene, are listed identically.
pub proof fn lemma_listing_order_independent(s1: Seq<GenePromView>, s2: Seq<GenePromView>)
    requires
        unique_ids(s1),
        unique_ids(s2),
        forall|x: GenePromView| s1.contains(x) <==> s2.contains(x),
    ensures
        sort_genes(s1) == sort_genes(s2),
{
    lemma_sort_genes(s1);
    lemma_sort_genes(s2);
    lemma_sort_genes_unique(s1);
    lemma_sort_genes_unique(s2);
    lemma_sorted_unique_equal(sort_genes(s1), sort_genes(s2));
}

/// Whether record `a` is listed before record `b`.
pub fn listed_before(a: &GeneProm, b: &GeneProm) -> (r: bool)
    ensures
        r == gene_before(a@, b@),
{
    let x = abs_i64(a.d);
    let y = abs_i64(b.d);
    x < y || (x == y && str_le(a.gene_id.as_str(), b.gene_id.as_str()))
}

/// The records in listing order: by absolute TSS distance, ties by gene id.
pub fn order_genes(genes: &Vec<GeneProm>) -> (r: Vec<GeneProm>)
    ensures
        prom_views(r@) == sort_genes(prom_views(genes@)),
{
    let mut sorted: Vec<GeneProm> = Vec::with_capacity(genes.len());
    let mut i: usize = 0;
    while i < genes.len()
        invariant
            i <= genes@.len(),
            prom_views(sorted@) == sort_genes(prom_views(genes@).subrange(0, i as int)),
        decreases genes@.len() - i,
    {
        let ghost prefix = prom_views(genes@).subrange(0, i as int);
        let ghost next = prom_views(genes@).subrange(0, i + 1);
        proof {
            assert(next.drop_last() =~= prefix);
        }
        let g = genes[i].copy();
        let mut p: usize = 0;
        while p < sorted.len() && !listed_before(&g, &sorted[p])
            invariant
                p <= sorted@.len(),
                forall|j: int| 0 <= j < p ==> !gene_before(g@, #[trigger] prom_views(sorted@)[j]),
            decreases sorted@.len() - p,
        {
            p = p + 1;
        }
        let ghost sv = prom_views(sorted@);
        proof {
            lemma_insert_sorted_at(sv, g@, p as int);
        }
        sorted.insert(p, g);
        assert(prom_views(sorted@) =~= sv.insert(p as int, genes@[i as int]@));
        i = i + 1;
    }
    assert(prom_views(genes@).subrange(0, genes@.len() as int) =~= prom_views(genes@));
    sorted
}

/// One of the genes nearest a location, with its label against the location.
#[derive(Debug, Clone)]
pub struct ClosestGene {
    pub gene_id: String,
    pub gene_symbol: String,
    pub prom_label: String,
    pub tss_dist: i32,
}

/// The annotation of one location. The first four fields are co-indexed
/// lists joined by `;`: the genes whose promoter-padded extent the location
/// touches, their symbols, labels and signed TSS distances, nearest first.
/// With no such gene each list is the single sentinel `n/a` (the label list a
/// single empty label).
#[derive(Debug, Clone)]
pub struct GeneAnnotation {
    pub gene_ids: String,
    pub gene_symbols: String,
    pub prom_labels: String,
    pub tss_dists: String,
    pub closest_genes: Vec<ClosestGene>,
}

/// The gene-id list of an annotation.
pub open spec fn within_ids(g: Seq<GenePromView>) -> Seq<Seq<char>> {
    if g.len() == 0 {
        seq![NA@]
    } else {
        gene_ids(g)
    }
}

/// The gene-symbol list of an annotation.
pub open spec fn within_symbols(g: Seq<GenePromView>) -> Seq<Seq<char>> {
    if g.len() == 0 {
        seq![NA@]
    } else {
        g.map_values(|x: GenePromView| x.gene_symbol)
    }
}

/// The label list of an annotation.
pub open spec fn within_labels(g: Seq<GenePromView>) -> Seq<Seq<char>> {
    if g.len() == 0 {
        seq![Seq::empty()]
    } else {
        g.map_values(|x: GenePromView| label_of(x.is_promoter, x.is_exon, x.is_intronic))
    }
}

/// The distance list of an annotation.
pub open spec fn within_dists(g: Seq<GenePromView>) -> Seq<Seq<char>> {
    if g.len() == 0 {
        seq![NA@]
    } else {
        g.map_values(|x: GenePromView| int_str(x.d))
    }
}

/// The gene records of a location, one per gene, in listing order.
pub open spec fn within_genes(
    loc: Location,
    fs: Seq<GenomicFeature>,
    exons: Seq<bool>,
    r: TSSRegion,
) -> Seq<GenePromView> {
    sort_genes(fold_hits(hits_of(loc, fs, exons, r)))
}

/// Whether `c` describes feature `f` as one of the genes nearest `loc`.
pub open spec fn closest_gene_of(
    c: ClosestGene,
    loc: Location,
    f: GenomicFeature,
    r: TSSRegion,
    in_exon: bool,
) -> bool {
    &&& c.gene_id@ == f.gene_id@
    &&& c.gene_symbol@ == f.gene_symbol@
    &&& c.prom_label@ == location_label(loc, f, r, in_exon)
    &&& c.tss_dist == f.dist
}

/// What one transcript tells of its gene at a location; `in_exon` tells
/// whether the location overlaps one of the gene's exons.
pub fn gene_hit(
    location: &Location,
    feature: &GenomicFeature,
    tss_region: &TSSRegion,
    in_exon: bool,
) -> (r: GeneProm)
    ensures
        r@ == hit_of(*location, *feature, *tss_region, in_exon),
{
    let (s, e) = promoter_window(feature, tss_region);
    let mid = location.mid() as i64;
    GeneProm {
        gene_id: feature.gene_id.clone(),
        gene_symbol: feature.gene_symbol.clone(),
        is_promoter: s <= mid && mid <= e,
        is_intronic: feature.start as i64 <= mid && mid <= feature.end as i64,
        is_exon: in_exon,
        d: tss_dist(location, feature),
    }
}

/// One of the genes nearest a location, labelled against it.
pub fn closest_gene(
    location: &Location,
    feature: &GenomicFeature,
    tss_region: &TSSRegion,
    in_exon: bool,
) -> (r: ClosestGene)
    ensures
        closest_gene_of(r, *location, *feature, *tss_region, in_exon),
{
    ClosestGene {
        gene_id: feature.gene_id.clone(),
        gene_symbol: feature.gene_symbol.clone(),
        prom_label: classify_location(location, feature, tss_region, in_exon),
        tss_dist: feature.dist,
    }
}

/// The annotation of a location. `within` are the transcripts whose extent,
/// padded by [`TSSRegion::search_pad`], overlaps the location, and
/// `within_in_exon[i]` tells whether the location overlaps an exon of the
/// gene of `within[i]`; `closest` are the genes nearest the location, nearest
/// first, with `closest_in_exon` in the same way.
pub fn annotate_features(
    location: &Location,
    tss_region: &TSSRegion,
    within: &Vec<GenomicFeature>,
    within_in_exon: &Vec<bool>,
    closest: &Vec<GenomicFeature>,
    closest_in_exon: &Vec<bool>,
) -> (r: GeneAnnotation)
    requires
        within@.len() == within_in_exon@.len(),
        closest@.len() == closest_in_exon@.len(),
    ensures
        is_annotation_of(
            r,
            *location,
            *tss_region,
            within@,
            within_in_exon@,
            closest@,
            closest_in_exon@,
        ),
{
    let mut hits: Vec<GeneProm> = Vec::with_capacity(within.len());
    let mut i: usize = 0;
    while i < within.len()
        invariant
            i <= within@.len(),
            within@.len() == within_in_exon@.len(),
            prom_views(hits@) == hits_of(*location, within@, within_in_exon@, *tss_region).subrange(
                0,
                i as int,
            ),
        decreases within@.len() - i,
    {
        let h = gene_hit(location, &within[i], tss_region, within_in_exon[i]);
        assert(h@ == hits_of(*location, within@, within_in_exon@, *tss_region)[i as int]);
        let ghost before = prom_views(hits@);
        hits.push(h);
        assert(prom_views(hits@) =~= before.push(h@));
        assert(prom_views(hits@) =~= hits_of(*location, within@, within_in_exon@, *tss_region).subrange(
            0,
            i + 1,
        ));
        i = i + 1;
    }
    assert(prom_views(hits@) =~= hits_of(*location, within@, within_in_exon@, *tss_region));
    let merged = merge_hits(&hits);
    let genes = order_genes(&merged);
    let ghost g = prom_views(genes@);
    let mut ids: Vec<String> = Vec::with_capacity(genes.len());
    let mut symbols: Vec<String> = Vec::with_capacity(genes.len());
    let mut labels: Vec<String> = Vec::with_capacity(genes.len());
    let mut dists: Vec<String> = Vec::with_capacity(genes.len());
    let mut k: usize = 0;
    while k < genes.len()
        invariant
            k <= genes@.len(),
            g == prom_views(genes@),
            ids@.len() == k && symbols@.len() == k && labels@.len() == k && dists@.len() == k,
            forall|j: int| 0 <= j < k ==> (#[trigger] ids@[j])@ == g[j].gene_id,
            forall|j: int| 0 <= j < k ==> (#[trigger] symbols@[j])@ == g[j].gene_symbol,
            forall|j: int|
                0 <= j < k ==> (#[trigger] labels@[j])@ == label_of(
                    g[j].is_promoter,
                    g[j].is_exon,
                    g[j].is_intronic,
                ),
            forall|j: int| 0 <= j < k ==> (#[trigger] dists@[j])@ == int_str(g[j].d),
        decreases genes@.len() - k,
    {
        let x = &genes[k];
        ids.push(x.gene_id.clone());
        symbols.push(x.gene_symbol.clone());
        labels.push(make_label(x.is_promoter, x.is_exon, x.is_intronic));
        dists.push(int_to_string(x.d));
        k = k + 1;
    }
    if genes.len() == 0 {
        ids.push(String::from_str(NA));
        symbols.push(String::from_str(NA));
        labels.push(String::new());
        dists.push(String::from_str(NA));
    }
    assert(views(ids@) =~= within_ids(g));
    assert(views(symbols@) =~= within_symbols(g));
    assert(views(labels@) =~= within_labels(g));
    assert(views(dists@) =~= within_dists(g));
    let mut closest_genes: Vec<ClosestGene> = Vec::with_capacity(closest.len());
    let mut c: usize = 0;
    while c < closest.len()
        invariant
            c <= closest@.len(),
            closest@.len() == closest_in_exon@.len(),
            closest_genes@.len() == c,
            forall|j: int|
                0 <= j < c ==> closest_gene_of(
                    #[trigger] closest_genes@[j],
                    *location,
                    closest@[j],
                    *tss_region,
                    closest_in_exon@[j],
                ),
        decreases closest@.len() - c,
    {
        closest_genes.push(closest_gene(location, &closest[c], tss_region, closest_in_exon[c]));
        c = c + 1;
    }
    proof {
        reveal_strlit(";");
    }
    assert(";"@ =~= seq![';']);
    GeneAnnotation {
        gene_ids: join_strings(&ids, ";"),
        gene_symbols: join_strings(&symbols, ";"),
        prom_labels: join_strings(&labels, ";"),
        tss_dists: join_strings(&dists, ";"),
        closest_genes,
    }
}

/// The four lists of an annotation are co-indexed: they have one entry per
/// distinct gene among the overlapping transcripts, or the single sentinel
/// entry when no transcript overlaps.
pub proof fn lemma_within_lists_co_indexed(
    loc: Location,
    fs: Seq<GenomicFeature>,
    exons: Seq<bool>,
    r: TSSRegion,
)
    requires
        fs.len() == exons.len(),
    ensures
        ({
            let g = within_genes(loc, fs, exons, r);
            let n = within_ids(g).len();
            &&& within_symbols(g).len() == n
            &&& within_labels(g).len() == n
            &&& within_dists(g).len() == n
            &&& fs.len() == 0 ==> n == 1
            &&& fs.len() > 0 ==> n == fs.map_values(|f: GenomicFeature| f.gene_id@).to_set().len()
        }),
{
    let hits = hits_of(loc, fs, exons, r);
    let folded = fold_hits(hits);
    lemma_fold_hits_genes(hits);
    lemma_sort_genes(folded);
    let ids = gene_ids(folded);
    let fids = fs.map_values(|f: GenomicFeature| f.gene_id@);
    assert(ids.no_duplicates());
    ids.unique_seq_to_set();
    assert forall|id: Seq<char>| ids.to_set().contains(id) <==> fids.to_set().contains(id) by {
        if ids.contains(id) {
            let k = choose|k: int| 0 <= k < ids.len() && ids[k] == id;
            assert(folded[k].gene_id == id);
            assert(has_gene(folded, id));
            assert(has_gene(hits, id));
            let j = choose|j: int| 0 <= j < hits.len() && #[trigger] hits[j].gene_id == id;
            assert(fids[j] == id);
        }
        if fids.contains(id) {
            let j = choose|j: int| 0 <= j < fids.len() && fids[j] == id;
            assert(hits[j].gene_id == id);
            assert(has_gene(hits, id));
            assert(has_gene(folded, id));
            let k = choose|k: int| 0 <= k < folded.len() && #[trigger] folded[k].gene_id == id;
            assert(ids[k] == id);
        }
    }
    assert(ids.to_set() =~= fids.to_set());
    if fs.len() > 0 {
        assert(hits[0].gene_id == hits[0].gene_id);
        assert(has_gene(hits, hits[0].gene_id));
        assert(has_gene(folded, hits[0].gene_id));
    }
}

/// The records of an annotation run by nondecreasing absolute TSS distance,
/// and records at equal distance by gene id.
pub proof fn lemma_within_order(
    loc: Location,
    fs: Seq<GenomicFeature>,
    exons: Seq<bool>,
    r: TSSRegion,
)
    ensures
        ({
            let g = within_genes(loc, fs, exons, r);
            forall|i: int, j: int|
                #![trigger g[i], g[j]]
                0 <= i < j < g.len() ==> {
                    &&& abs(g[i].d) <= abs(g[j].d)
                    &&& abs(g[i].d) == abs(g[j].d) ==> lex_le(g[i].gene_id, g[j].gene_id)
                }
        }),
{
    let g = within_genes(loc, fs, exons, r);
    lemma_sort_genes(fold_hits(hits_of(loc, fs, exons, r)));
    assert forall|i: int, j: int| #![trigger g[i], g[j]] 0 <= i < j < g.len() implies {
        &&& abs(g[i].d) <= abs(g[j].d)
        &&& abs(g[i].d) == abs(g[j].d) ==> lex_le(g[i].gene_id, g[j].gene_id)
    } by {
        assert(gene_before(g[i], g[j]));
    }
}

/// Two hits on one gene merge into one record whose flags are the union of
/// theirs and whose distance is the nearer of the two.
pub proof fn lemma_merge_same_gene(h1: GenePromView, h2: GenePromView)
    requires
        h1.gene_id == h2.gene_id,
    ensures
        fold_hits(seq![h1, h2]) == seq![merge_prom(h1, h2)],
        merge_prom(h1, h2).gene_id == h1.gene_id,
        merge_prom(h1, h2).is_promoter == (h1.is_promoter || h2.is_promoter),
        merge_prom(h1, h2).is_exon == (h1.is_exon || h2.is_exon),
        merge_prom(h1, h2).is_intronic == (h1.is_intronic || h2.is_intronic),
        abs(merge_prom(h1, h2).d) == if abs(h1.d) <= abs(h2.d) {
            abs(h1.d)
        } else {
            abs(h2.d)
        },
{
    let s = seq![h1, h2];
    assert(s.drop_last() =~= seq![h1]);
    assert(seq![h1].drop_last() =~= Seq::<GenePromView>::empty());
    let empty = Seq::<GenePromView>::empty();
    assert(fold_hits(empty) == empty);
    assert(!has_gene(empty, h1.gene_id));
    let acc = fold_hits(seq![h1]);
    assert(acc =~= seq![h1]);
    assert(acc[0].gene_id == h2.gene_id);
    assert(has_gene(acc, h2.gene_id));
    assert(fold_hits(s) =~= seq![merge_prom(h1, h2)]);
}

/// An annotation is a function of the location, the promoter window and the
/// store's answers: two annotations of the same inputs hold the same text.
pub proof fn lemma_annotation_deterministic(
    a1: GeneAnnotation,
    a2: GeneAnnotation,
    loc: Location,
    r: TSSRegion,
    fs: Seq<GenomicFeature>,
    exons: Seq<bool>,
    cfs: Seq<GenomicFeature>,
    cexons: Seq<bool>,
)
    requires
        is_annotation_of(a1, loc, r, fs, exons, cfs, cexons),
        is_annotation_of(a2, loc, r, fs, exons, cfs, cexons),
    ensures
        a1.gene_ids@ == a2.gene_ids@,
        a1.gene_symbols@ == a2.gene_symbols@,
        a1.prom_labels@ == a2.prom_labels@,
        a1.tss_dists@ == a2.tss_dists@,
        a1.closest_genes@.len() == a2.closest_genes@.len(),
        forall|i: int|
            0 <= i < a1.closest_genes@.len() ==> {
                &&& (#[trigger] a1.closest_genes@[i]).gene_id@ == a2.closest_genes@[i].gene_id@
                &&& a1.closest_genes@[i].gene_symbol@ == a2.closest_genes@[i].gene_symbol@
                &&& a1.closest_genes@[i].prom_label@ == a2.closest_genes@[i].prom_label@
                &&& a1.closest_genes@[i].tss_dist == a2.closest_genes@[i].tss_dist
            },
{
    assert forall|i: int| 0 <= i < a1.closest_genes@.len() implies {
        &&& (#[trigger] a1.closest_genes@[i]).gene_id@ == a2.closest_genes@[i].gene_id@
        &&& a1.closest_genes@[i].gene_symbol@ == a2.closest_genes@[i].gene_symbol@
        &&& a1.closest_genes@[i].prom_label@ == a2.closest_genes@[i].prom_label@
        &&& a1.closest_genes@[i].tss_dist == a2.closest_genes@[i].tss_dist
    } by {
        assert(closest_gene_of(a1.closest_genes@[i], loc, cfs[i], r, cexons[i]));
        assert(closest_gene_of(a2.closest_genes@[i], loc, cfs[i], r, cexons[i]));
    }
}

} // verus!
