//! Observations and denominators written on one line: pairs as
//! `x1:y1,x2:y2,...`, counts as `m1,m2,...`.

use vstd::prelude::*;
use crate::count::{count_outcome, parse_count, CountError};
use crate::text::{split, split_at, texts};

verus! {

/// One pair as it is written: the text before the first colon, and the text
/// after it up to the next colon, where there is a colon.
#[derive(Debug, PartialEq, Eq)]
pub struct PairText {
    pub x: String,
    pub y: Option<String>,
}

/// A pair as a mathematical value.
pub struct PairModel {
    pub x: Seq<char>,
    pub y: Option<Seq<char>>,
}

impl View for PairText {
    type V = PairModel;

    open spec fn view(&self) -> PairModel {
        PairModel {
            x: self.x@,
            y: match self.y {
                Some(t) => Some(t@),
                None => None,
            },
        }
    }
}

/// The pairs that a vector holds.
pub open spec fn pair_models(pairs: Seq<PairText>) -> Seq<PairModel> {
    Seq::new(pairs.len(), |i: int| pairs[i]@)
}

/// The pair that one piece of the line gives. What follows a second colon is
/// not read.
pub open spec fn pair_of(piece: Seq<char>) -> PairModel {
    let parts = split(piece, ':');
    PairModel {
        x: parts[0],
        y: if parts.len() > 1 {
            Some(parts[1])
        } else {
            None
        },
    }
}

/// The pairs of a line: one for each piece between commas.
pub open spec fn pairs_of(line: Seq<char>) -> Seq<PairModel> {
    Seq::new(split(line, ',').len(), |i: int| pair_of(split(line, ',')[i]))
}

/// The counts that the pieces stand for, or the error of the first piece
/// that is no count.
pub open spec fn counts_outcome(pieces: Seq<Seq<char>>) -> Result<Seq<usize>, CountError>
    decreases pieces.len(),
{
    if pieces.len() == 0 {
        Ok(Seq::empty())
    } else {
        match counts_outcome(pieces.drop_last()) {
            Err(e) => Err(e),
            Ok(front) => match count_outcome(pieces.last()) {
                Err(e) => Err(e),
                Ok(m) => Ok(front.push(m)),
            },
        }
    }
}

/// A text has at least one piece.
pub proof fn lemma_split_nonempty(s: Seq<char>, sep: char)
    ensures
        split(s, sep).len() >= 1,
    decreases s.len(),
{
    if s.len() > 0 {
        lemma_split_nonempty(s.drop_last(), sep);
    }
}

/// Reads one piece of the line as a pair.
pub fn split_pair(piece: &str) -> (pair: PairText)
    ensures
        pair@ == pair_of(piece@),
{
    let parts = split_at(piece, ':');
    proof {
        lemma_split_nonempty(piece@, ':');
    }
    assert(texts(parts@)[0] == parts@[0]@);
    let x = parts[0].clone();
    let y = if parts.len() > 1 {
        assert(texts(parts@)[1] == parts@[1]@);
        Some(parts[1].clone())
    } else {
        None
    };
    PairText { x, y }
}

/// Reads a line of pairs.
pub fn split_pairs(line: &str) -> (pairs: Vec<PairText>)
    ensures
        pair_models(pairs@) == pairs_of(line@),
{
    let pieces = split_at(line, ',');
    let mut pairs: Vec<PairText> = Vec::new();
    let mut i: usize = 0;
    while i < pieces.len()
        invariant
            i <= pieces.len(),
            texts(pieces@) == split(line@, ','),
            pairs@.len() == i,
            forall|k: int| 0 <= k < i ==> (#[trigger] pairs@[k])@ == pair_of(split(line@, ',')[k]),
        decreases pieces.len() - i,
    {
        assert(texts(pieces@)[i as int] == pieces@[i as int]@);
        pairs.push(split_pair(pieces[i].as_str()));
        i += 1;
    }
    assert(pair_models(pairs@) =~= pairs_of(line@));
    pairs
}

/// Reads a line of counts: all of them, or the error of the first that fails.
pub fn parse_counts(line: &str) -> (r: Result<Vec<usize>, CountError>)
    ensures
        match r {
            Ok(counts) => counts_outcome(split(line@, ',')) == Ok::<Seq<usize>, CountError>(
                counts@,
            ),
            Err(e) => counts_outcome(split(line@, ',')) == Err::<Seq<usize>, CountError>(e),
        },
{
    let pieces = split_at(line, ',');
    let ghost all = split(line@, ',');
    let mut counts: Vec<usize> = Vec::new();
    let mut i: usize = 0;
    assert(all.take(0) =~= Seq::<Seq<char>>::empty());
    while i < pieces.len()
        invariant
            i <= pieces.len(),
            texts(pieces@) == all,
            all == split(line@, ','),
            counts_outcome(all.take(i as int)) == Ok::<Seq<usize>, CountError>(counts@),
        decreases pieces.len() - i,
    {
        assert(texts(pieces@)[i as int] == pieces@[i as int]@);
        assert(all.take(i + 1).drop_last() =~= all.take(i as int));
        assert(all.take(i + 1).last() == all[i as int]);
        match parse_count(pieces[i].as_str()) {
            Ok(m) => {
                counts.push(m);
            },
            Err(e) => {
                proof {
                    lemma_counts_error_stays(all, i + 1, e);
                }
                return Err(e);
            },
        }
        i += 1;
    }
    assert(all.take(pieces.len() as int) =~= all);
    Ok(counts)
}

/// Once the pieces up to some point have given an error, more pieces give
/// the same.
pub proof fn lemma_counts_error_stays(pieces: Seq<Seq<char>>, k: int, e: CountError)
    requires
        0 <= k <= pieces.len(),
        counts_outcome(pieces.take(k)) == Err::<Seq<usize>, CountError>(e),
    ensures
        counts_outcome(pieces) == Err::<Seq<usize>, CountError>(e),
    decreases pieces.len() - k,
{
    if k < pieces.len() {
        assert(pieces.take(k + 1).drop_last() =~= pieces.take(k));
        lemma_counts_error_stays(pieces, k + 1, e);
    } else {
        assert(pieces.take(k) =~= pieces);
    }
}

} // verus!
