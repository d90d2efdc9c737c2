//! Composition counters: what one read contributes, and how contributions add up.

use vstd::prelude::*;

verus! {

/// The mathematical value of a tuple of composition counters.
pub struct Tally {
    /// Residues that are A or T, in either case.
    pub at: nat,
    /// Residues that are G or C, in either case.
    pub gc: nat,
    /// All other residues.
    pub other: nat,
    /// Reads that were counted.
    pub records: nat,
}

/// `A`, `a`, `T` or `t`.
pub open spec fn is_at(residue: u8) -> bool {
    residue == 'A' as u8 || residue == 'a' as u8 || residue == 'T' as u8 || residue == 't' as u8
}

/// `C`, `c`, `G` or `g`.
pub open spec fn is_gc(residue: u8) -> bool {
    residue == 'C' as u8 || residue == 'c' as u8 || residue == 'G' as u8 || residue == 'g' as u8
}

/// Neither of the two: ambiguity codes, gaps and whatever else a decoder hands over.
pub open spec fn is_other(residue: u8) -> bool {
    !is_at(residue) && !is_gc(residue)
}

impl Tally {
    /// The tally of nothing, neutral for [`Tally::merge`].
    pub open spec fn zero() -> Tally {
        Tally { at: 0, gc: 0, other: 0, records: 0 }
    }

    /// Field by field sum.
    pub open spec fn merge(self, rhs: Tally) -> Tally {
        Tally {
            at: self.at + rhs.at,
            gc: self.gc + rhs.gc,
            other: self.other + rhs.other,
            records: self.records + rhs.records,
        }
    }

    /// All residues that went into the tally.
    pub open spec fn residues(self) -> nat {
        self.at + self.gc + self.other
    }

    /// Whether every field fits in a `u64`.
    pub open spec fn fits(self) -> bool {
        self.at <= u64::MAX && self.gc <= u64::MAX && self.other <= u64::MAX && self.records
            <= u64::MAX
    }
}

/// What a tuple of counters stands for.
pub open spec fn tally_of(counters: (u64, u64, u64, u64)) -> Tally {
    Tally {
        at: counters.0 as nat,
        gc: counters.1 as nat,
        other: counters.2 as nat,
        records: counters.3 as nat,
    }
}

/// The tally of one read with the given residues.
pub open spec fn classify(residues: Seq<u8>) -> Tally {
    Tally {
        at: residues.filter(|r: u8| is_at(r)).len(),
        gc: residues.filter(|r: u8| is_gc(r)).len(),
        other: residues.filter(|r: u8| is_other(r)).len(),
        records: 1,
    }
}

/// What one item of a source adds to a run: the tally of a read, and nothing
/// for an item that stands for a failure, whatever the failure is.
pub open spec fn contribution<E>(item: Result<Vec<u8>, E>) -> Tally {
    match item {
        Ok(residues) => classify(residues@),
        Err(_) => Tally::zero(),
    }
}

/// The tally of a whole run: the contributions merged from left to right,
/// starting from zero.
pub open spec fn total(contributions: Seq<Tally>) -> Tally
    decreases contributions.len(),
{
    if contributions.len() == 0 {
        Tally::zero()
    } else {
        total(contributions.drop_last()).merge(contributions.last())
    }
}

/// The tally of a run over `items`: what each of them adds, merged from left
/// to right.
pub open spec fn run_tally<E>(items: Seq<Result<Vec<u8>, E>>) -> Tally {
    total(items.map_values(|item: Result<Vec<u8>, E>| contribution(item)))
}

/// How many of `items` are reads.
pub open spec fn reads<E>(items: Seq<Result<Vec<u8>, E>>) -> nat {
    items.filter(|item: Result<Vec<u8>, E>| item is Ok).len()
}

/// How many residues the reads among `items` have together.
pub open spec fn residues<E>(items: Seq<Result<Vec<u8>, E>>) -> nat
    decreases items.len(),
{
    if items.len() == 0 {
        0
    } else {
        residues(items.drop_last()) + match items.last() {
            Ok(read) => read@.len(),
            Err(_) => 0,
        }
    }
}

/// Counting one more residue moves exactly one of the three counts up by one.
pub proof fn lemma_classify_push(residues: Seq<u8>, residue: u8)
    ensures
        classify(residues.push(residue)) == (Tally {
            at: classify(residues).at + if is_at(residue) { 1nat } else { 0nat },
            gc: classify(residues).gc + if is_gc(residue) { 1nat } else { 0nat },
            other: classify(residues).other + if is_other(residue) { 1nat } else { 0nat },
            records: 1,
        }),
{
    let longer = residues.push(residue);
    assert(longer.drop_last() =~= residues);
    reveal(Seq::filter);
}

/// Every residue of a read is counted once: the three counts add up to the
/// length of the read, and the read itself counts as one record.
pub proof fn lemma_classify_partitions(residues: Seq<u8>)
    ensures
        classify(residues).residues() == residues.len(),
        classify(residues).records == 1,
    decreases residues.len(),
{
    if residues.len() == 0 {
        reveal(Seq::filter);
    } else {
        lemma_classify_partitions(residues.drop_last());
        lemma_classify_push(residues.drop_last(), residues.last());
        assert(residues.drop_last().push(residues.last()) =~= residues);
    }
}

/// The tally of a run accounts for every residue of every read, and for
/// nothing else: its three counts add up to the residues of the reads, and it
/// has one record for each read. Items that stand for a failure leave no trace.
pub proof fn lemma_run_tally_accounts<E>(items: Seq<Result<Vec<u8>, E>>)
    ensures
        run_tally(items).residues() == residues(items),
        run_tally(items).records == reads(items),
    decreases items.len(),
{
    let each = |item: Result<Vec<u8>, E>| contribution(item);
    if items.len() == 0 {
        reveal(Seq::filter);
    } else {
        let before = items.drop_last();
        lemma_run_tally_accounts(before);
        assert(items.map_values(each).drop_last() =~= before.map_values(each));
        if let Ok(read) = items.last() {
            lemma_classify_partitions(read@);
        }
        reveal(Seq::filter);
    }
}

/// Merging is associative: how partial tallies are grouped does not matter.
pub proof fn lemma_merge_associative(a: Tally, b: Tally, c: Tally)
    ensures
        a.merge(b).merge(c) == a.merge(b.merge(c)),
{
}

/// Merging is commutative: which partial tally comes first does not matter.
pub proof fn lemma_merge_commutative(a: Tally, b: Tally)
    ensures
        a.merge(b) == b.merge(a),
{
}

/// The zero tally is neutral on both sides of a merge.
pub proof fn lemma_merge_identity(a: Tally)
    ensures
        a.merge(Tally::zero()) == a,
        Tally::zero().merge(a) == a,
{
}

/// A run cut in two: the total is the merge of the totals of the parts.
pub proof fn lemma_total_concat(front: Seq<Tally>, back: Seq<Tally>)
    ensures
        total(front + back) == total(front).merge(total(back)),
    decreases back.len(),
{
    if back.len() == 0 {
    } else {
        lemma_total_concat(front, back.drop_last());
        assert((front + back).drop_last() =~= front + back.drop_last());
    }
}

/// A contribution taken out of a run can be merged back in at the end.
pub proof fn lemma_total_remove(contributions: Seq<Tally>, i: int)
    requires
        0 <= i < contributions.len(),
    ensures
        total(contributions) == total(contributions.remove(i)).merge(contributions[i]),
    decreases contributions.len(),
{
    let shorter = contributions.remove(i);
    if i == contributions.len() - 1 {
    } else {
        lemma_total_remove(contributions.drop_last(), i);
        assert(shorter.drop_last() =~= contributions.drop_last().remove(i));
    }
}

/// The total of a run does not depend on the order of its contributions.
pub proof fn lemma_total_permutation(a: Seq<Tally>, b: Seq<Tally>)
    requires
        a.to_multiset() == b.to_multiset(),
    ensures
        total(a) == total(b),
    decreases a.len(),
{
    a.to_multiset_ensures();
    b.to_multiset_ensures();
    if a.len() > 0 {
        let last = a.last();
        assert(a.to_multiset().count(last) > 0);
        let j = choose|j: int| 0 <= j < b.len() && b[j] == last;
        assert(a.drop_last() =~= a.remove(a.len() - 1));
        lemma_total_permutation(a.drop_last(), b.remove(j));
        lemma_total_remove(b, j);
    }
}

/// One way of reducing a run in parallel: every contribution is handed to
/// some worker, every worker starts from the zero tally, and partial results
/// are merged pairwise in whatever grouping the scheduler arrives at.
pub enum Reduction {
    /// The zero tally that a worker starts from.
    Identity,
    /// One contribution.
    Item(Tally),
    /// Two partial results merged.
    Merge(Box<Reduction>, Box<Reduction>),
}

impl Reduction {
    /// The contributions that the reduction consumes, from left to right.
    pub open spec fn items(self) -> Seq<Tally>
        decreases self,
    {
        match self {
            Reduction::Identity => Seq::empty(),
            Reduction::Item(tally) => seq![tally],
            Reduction::Merge(left, right) => left.items() + right.items(),
        }
    }

    /// The tally that the reduction arrives at.
    pub open spec fn value(self) -> Tally
        decreases self,
    {
        match self {
            Reduction::Identity => Tally::zero(),
            Reduction::Item(tally) => tally,
            Reduction::Merge(left, right) => left.value().merge(right.value()),
        }
    }

    /// Whether every partial result on the way fits in counters.
    pub open spec fn fits_throughout(self) -> bool
        decreases self,
    {
        match self {
            Reduction::Merge(left, right) => self.value().fits() && left.fits_throughout()
                && right.fits_throughout(),
            _ => self.value().fits(),
        }
    }
}

/// A reduction arrives at the total of the contributions it consumes.
pub proof fn lemma_reduction_value(reduction: Reduction)
    ensures
        reduction.value() == total(reduction.items()),
    decreases reduction,
{
    match reduction {
        Reduction::Identity => {},
        Reduction::Item(tally) => {
            assert(seq![tally].drop_last() =~= Seq::<Tally>::empty());
            assert(total(seq![tally]) == total(Seq::<Tally>::empty()).merge(tally));
        },
        Reduction::Merge(left, right) => {
            lemma_reduction_value(*left);
            lemma_reduction_value(*right);
            lemma_total_concat(left.items(), right.items());
        },
    }
}

/// However the contributions of a run are dealt out to workers and however
/// the partial results are grouped, a parallel reduction that consumes each
/// contribution exactly once arrives at the tally of the sequential fold from
/// left to right.
pub proof fn lemma_parallel_reduction(reduction: Reduction, contributions: Seq<Tally>)
    requires
        reduction.items().to_multiset() == contributions.to_multiset(),
    ensures
        reduction.value() == total(contributions),
{
    lemma_reduction_value(reduction);
    lemma_total_permutation(reduction.items(), contributions);
}

/// Counters never go down on the way: where the result of a reduction fits,
/// so does every partial result, and every merge on the way can be done with
/// [`reduce`].
pub proof fn lemma_reduction_fits(reduction: Reduction)
    requires
        reduction.value().fits(),
    ensures
        reduction.fits_throughout(),
    decreases reduction,
{
    match reduction {
        Reduction::Merge(left, right) => {
            lemma_reduction_fits(*left);
            lemma_reduction_fits(*right);
        },
        _ => {},
    }
}

/// Counts the residues of one read, each in the one of the three counts that
/// it belongs to, and the read as one record.
pub fn count(residues: &Vec<u8>) -> (r: (u64, u64, u64, u64))
    ensures
        tally_of(r) == classify(residues@),
        r.0 + r.1 + r.2 == residues@.len(),
        r.3 == 1,
{
    let mut at: u64 = 0;
    let mut gc: u64 = 0;
    let mut other: u64 = 0;
    let mut i: usize = 0;
    while i < residues.len()
        invariant
            i <= residues.len(),
            tally_of((at, gc, other, 1)) == classify(residues@.take(i as int)),
        decreases residues.len() - i,
    {
        let residue = residues[i];
        proof {
            let seen = residues@.take(i as int);
            lemma_classify_push(seen, residue);
            lemma_classify_partitions(seen);
            assert(seen.push(residue) =~= residues@.take(i + 1));
        }
        if residue == 'A' as u8 || residue == 'a' as u8 || residue == 'T' as u8 || residue
            == 't' as u8 {
            at += 1;
        } else if residue == 'C' as u8 || residue == 'c' as u8 || residue == 'G' as u8
            || residue == 'g' as u8 {
            gc += 1;
        } else {
            other += 1;
        }
        i += 1;
    }
    proof {
        assert(residues@.take(i as int) =~= residues@);
        lemma_classify_partitions(residues@);
    }
    (at, gc, other, 1)
}

/// The counters of a run over no record at all, neutral for [`reduce`].
pub fn reduce_identity() -> (r: (u64, u64, u64, u64))
    ensures
        r == (0u64, 0u64, 0u64, 0u64),
        tally_of(r) == Tally::zero(),
{
    (0, 0, 0, 0)
}

/// Merges two tuples of counters: adds them field by field. The sums have
/// to fit.
pub fn reduce(a: (u64, u64, u64, u64), b: (u64, u64, u64, u64)) -> (r: (u64, u64, u64, u64))
    requires
        tally_of(a).merge(tally_of(b)).fits(),
    ensures
        tally_of(r) == tally_of(a).merge(tally_of(b)),
{
    (a.0 + b.0, a.1 + b.1, a.2 + b.2, a.3 + b.3)
}

} // verus!
