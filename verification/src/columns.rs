//! Finding the columns of a table by the names in its header row.

use vstd::prelude::*;
use crate::text::{
    chars_of, lowered, skip_marks, strip_marks, texts, to_ascii_lower, trim_bounds, trimmed,
};

verus! {

/// Where the three quantities stand in each record.
#[derive(Debug, Clone, Copy, PartialEq, Eq, Structural)]
pub struct ColumnLayout {
    /// The column of the predictor, the supervised proportion.
    pub x: usize,
    /// The column of the response, the unsupervised proportion.
    pub y: usize,
    /// The column of the denominators, where the header names one.
    pub den: Option<usize>,
}

/// A header as it is compared: trimmed, without byte-order marks before it,
/// and in small letters.
pub open spec fn normalized(s: Seq<char>) -> Seq<char> {
    lowered(strip_marks(trimmed(s)))
}

/// The texts of a list of names.
pub open spec fn name_texts(names: Seq<&str>) -> Seq<Seq<char>> {
    Seq::new(names.len(), |i: int| names[i]@)
}

/// Whether a header is one of the names, letter case aside.
pub open spec fn names_header(header: Seq<char>, names: Seq<Seq<char>>) -> bool {
    exists|j: int| 0 <= j < names.len() && normalized(header) == lowered(#[trigger] names[j])
}

/// The first header that is one of the names, if there is one.
pub open spec fn first_named(headers: Seq<Seq<char>>, names: Seq<Seq<char>>) -> Option<int>
    decreases headers.len(),
{
    if headers.len() == 0 {
        None
    } else {
        match first_named(headers.drop_last(), names) {
            Some(i) => Some(i),
            None => if names_header(headers.last(), names) {
                Some(headers.len() - 1)
            } else {
                None
            },
        }
    }
}

/// The names under which the predictor is looked for.
pub open spec fn predictor_names() -> Seq<Seq<char>> {
    seq!["sup_prop"@, "x"@, "sup"@]
}

/// The names under which the response is looked for.
pub open spec fn response_names() -> Seq<Seq<char>> {
    seq!["unsup_prop"@, "y"@, "unsup"@]
}

/// The names under which the denominators are looked for.
pub open spec fn denominator_names() -> Seq<Seq<char>> {
    seq!["unsup_den"@, "m"@, "den"@]
}

/// The layout that a header row gives. A predictor that no header names is
/// taken from the first column and a response from the second; denominators
/// are read only where a header names them.
pub open spec fn layout_of(headers: Seq<Seq<char>>) -> ColumnLayout {
    ColumnLayout {
        x: match first_named(headers, predictor_names()) {
            Some(i) => i as usize,
            None => 0,
        },
        y: match first_named(headers, response_names()) {
            Some(i) => i as usize,
            None => 1,
        },
        den: match first_named(headers, denominator_names()) {
            Some(i) => Some(i as usize),
            None => None,
        },
    }
}

/// A header that is one of the names, with none before it, is the first.
pub proof fn lemma_first_named_found(headers: Seq<Seq<char>>, names: Seq<Seq<char>>, i: int)
    requires
        0 <= i < headers.len(),
        names_header(headers[i], names),
        forall|k: int| 0 <= k < i ==> !names_header(#[trigger] headers[k], names),
    ensures
        first_named(headers, names) == Some(i),
    decreases headers.len(),
{
    let front = headers.drop_last();
    if i < headers.len() - 1 {
        assert(front[i] == headers[i]);
        assert forall|k: int| 0 <= k < i implies !names_header(#[trigger] front[k], names) by {
            assert(front[k] == headers[k]);
        }
        lemma_first_named_found(front, names, i);
    } else {
        assert forall|k: int| 0 <= k < front.len() implies !names_header(
            #[trigger] front[k],
            names,
        ) by {
            assert(front[k] == headers[k]);
        }
        lemma_first_named_absent(front, names);
    }
}

/// Where no header is one of the names, none is the first.
pub proof fn lemma_first_named_absent(headers: Seq<Seq<char>>, names: Seq<Seq<char>>)
    requires
        forall|k: int| 0 <= k < headers.len() ==> !names_header(#[trigger] headers[k], names),
    ensures
        first_named(headers, names) is None,
    decreases headers.len(),
{
    if headers.len() > 0 {
        let front = headers.drop_last();
        assert forall|k: int| 0 <= k < front.len() implies !names_header(
            #[trigger] front[k],
            names,
        ) by {
            assert(front[k] == headers[k]);
        }
        lemma_first_named_absent(front, names);
    }
}

/// Whether a header, once normalized, is the name in small letters.
pub fn same_name(header: &str, name: &str) -> (r: bool)
    ensures
        r == (normalized(header@) == lowered(name@)),
{
    let h = chars_of(header);
    let (a, b) = trim_bounds(h.as_slice());
    let c = skip_marks(h.as_slice(), a, b);
    let nm = chars_of(name);
    let ghost core = h@.subrange(c as int, b as int);
    assert(normalized(header@) == lowered(core));
    if b - c != nm.len() {
        assert(lowered(core).len() != lowered(name@).len());
        return false;
    }
    let len = nm.len();
    let mut k: usize = 0;
    while k < len
        invariant
            k <= len,
            len == nm@.len(),
            nm@ == name@,
            c + len == b,
            b <= h@.len(),
            core == h@.subrange(c as int, b as int),
            normalized(header@) == lowered(core),
            forall|j: int| 0 <= j < k ==> lowered(core)[j] == lowered(name@)[j],
        decreases len - k,
    {
        if to_ascii_lower(h[c + k]) != to_ascii_lower(nm[k]) {
            assert(lowered(core)[k as int] != lowered(name@)[k as int]);
            return false;
        }
        k += 1;
    }
    assert(lowered(core) =~= lowered(name@));
    true
}

/// Whether a header is one of the names.
pub fn is_named(header: &str, names: &[&str]) -> (r: bool)
    ensures
        r == names_header(header@, name_texts(names@)),
{
    let mut j: usize = 0;
    while j < names.len()
        invariant
            j <= names.len(),
            forall|i: int|
                0 <= i < j ==> normalized(header@) != lowered(#[trigger] name_texts(names@)[i]),
        decreases names.len() - j,
    {
        if same_name(header, names[j]) {
            assert(normalized(header@) == lowered(name_texts(names@)[j as int]));
            return true;
        }
        j += 1;
    }
    false
}

/// Finds the first header that is one of the names.
pub fn find_column(headers: &Vec<String>, names: &[&str]) -> (r: Option<usize>)
    ensures
        r is Some <==> first_named(texts(headers@), name_texts(names@)) is Some,
        r is Some ==> r->0 as int == first_named(texts(headers@), name_texts(names@))->0,
        r is Some ==> r->0 < headers@.len(),
{
    let mut i: usize = 0;
    while i < headers.len()
        invariant
            i <= headers.len(),
            forall|k: int|
                0 <= k < i ==> !names_header(
                    #[trigger] texts(headers@)[k],
                    name_texts(names@),
                ),
        decreases headers.len() - i,
    {
        if is_named(headers[i].as_str(), names) {
            proof {
                assert(texts(headers@)[i as int] == headers@[i as int]@);
                lemma_first_named_found(texts(headers@), name_texts(names@), i as int);
            }
            return Some(i);
        }
        assert(texts(headers@)[i as int] == headers@[i as int]@);
        i += 1;
    }
    proof {
        lemma_first_named_absent(texts(headers@), name_texts(names@));
    }
    None
}

/// Reads the layout off a header row.
pub fn resolve_columns(headers: &Vec<String>) -> (layout: ColumnLayout)
    ensures
        layout == layout_of(texts(headers@)),
{
    let predictor: [&str; 3] = ["sup_prop", "x", "sup"];
    let response: [&str; 3] = ["unsup_prop", "y", "unsup"];
    let denominators: [&str; 3] = ["unsup_den", "m", "den"];
    assert(name_texts(predictor@) =~= predictor_names());
    assert(name_texts(response@) =~= response_names());
    assert(name_texts(denominators@) =~= denominator_names());
    let x = match find_column(headers, predictor.as_slice()) {
        Some(i) => i,
        None => 0,
    };
    let y = match find_column(headers, response.as_slice()) {
        Some(i) => i,
        None => 1,
    };
    let den = find_column(headers, denominators.as_slice());
    ColumnLayout { x, y, den }
}

} // verus!
