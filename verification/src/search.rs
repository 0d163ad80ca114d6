//! Looking for files: the places where a program or a file may be, in the
//! order in which they are tried, and the first one that is there.
use vstd::prelude::*;

use crate::text::{join_path, law_path_below, opt_text, path_below, texts};

verus! {

/// Where a program may be: its name below each directory, in their order.
pub open spec fn candidates_of(dirs: Seq<Seq<char>>, name: Seq<char>) -> Seq<Seq<char>> {
    dirs.map_values(|d: Seq<char>| path_below(d, name))
}

/// The first candidate from `from` on that is there.
pub open spec fn first_from(candidates: Seq<Seq<char>>, there: Seq<bool>, from: int) -> Option<
    Seq<char>,
>
    decreases candidates.len() - from,
{
    if from < 0 || from >= candidates.len() {
        None
    } else if there[from] {
        Some(candidates[from])
    } else {
        first_from(candidates, there, from + 1)
    }
}

/// Adds the places where a program may be to a list of candidates.
pub fn push_candidates(list: &mut Vec<String>, dirs: &Vec<String>, name: &str)
    ensures
        texts(final(list)@) == texts(old(list)@) + candidates_of(texts(dirs@), name@),
{
    let ghost f = |d: Seq<char>| path_below(d, name@);
    let ghost all = candidates_of(texts(dirs@), name@);
    let ghost before = texts(list@);
    let mut i: usize = 0;
    assert(texts(list@) =~= before + all.take(0));
    while i < dirs.len()
        invariant
            i <= dirs@.len(),
            all == candidates_of(texts(dirs@), name@),
            texts(list@) == before + all.take(i as int),
        decreases dirs@.len() - i,
    {
        let ghost sofar = list@;
        list.push(join_path(dirs[i].as_str(), name));
        assert(list@.last()@ == all[i as int]);
        assert(texts(list@) =~= texts(sofar).push(all[i as int]));
        i = i + 1;
        assert(texts(list@) =~= before + all.take(i as int));
    }
    assert(all.take(i as int) =~= all);
}

/// Where a program may be.
pub fn search_candidates(dirs: &Vec<String>, name: &str) -> (r: Vec<String>)
    ensures
        texts(r@) == candidates_of(texts(dirs@), name@),
{
    let mut list: Vec<String> = Vec::new();
    push_candidates(&mut list, dirs, name);
    assert(texts(list@) =~= candidates_of(texts(dirs@), name@));
    list
}

/// The first candidate that is there; `there` tells so of each.
pub fn first_there(candidates: &Vec<String>, there: &Vec<bool>) -> (r: Option<String>)
    requires
        candidates@.len() == there@.len(),
    ensures
        opt_text(r) == first_from(texts(candidates@), there@, 0),
{
    let mut i: usize = 0;
    while i < candidates.len()
        invariant
            i <= candidates@.len(),
            candidates@.len() == there@.len(),
            first_from(texts(candidates@), there@, 0) == first_from(
                texts(candidates@),
                there@,
                i as int,
            ),
        decreases candidates@.len() - i,
    {
        if there[i] {
            assert(texts(candidates@)[i as int] == candidates@[i as int]@);
            return Some(candidates[i].clone());
        }
        i = i + 1;
    }
    None
}

/// The program's place: the first of its candidates that is a file.
pub fn which(dirs: &Vec<String>, name: &str, there: &Vec<bool>) -> (r: Option<String>)
    requires
        dirs@.len() == there@.len(),
    ensures
        opt_text(r) == first_from(candidates_of(texts(dirs@), name@), there@, 0),
{
    let candidates = search_candidates(dirs, name);
    assert(candidates@.len() == texts(candidates@).len());
    first_there(&candidates, there)
}

// ── Laws ─────────────────────────────────────────────────────────────────

/// What is found is the first candidate that is there, and nothing is found
/// only if none is.
pub proof fn law_first_one_is_found(candidates: Seq<Seq<char>>, there: Seq<bool>)
    requires
        candidates.len() == there.len(),
    ensures
        match first_from(candidates, there, 0) {
            Some(c) => exists|i: int|
                0 <= i < candidates.len() && #[trigger] there[i] && candidates[i] == c && forall|
                    j: int,
                |
                    0 <= j < i ==> !there[j],
            None => forall|i: int| 0 <= i < there.len() ==> !there[i],
        },
{
    lemma_first_from(candidates, there, 0);
}

proof fn lemma_first_from(candidates: Seq<Seq<char>>, there: Seq<bool>, from: int)
    requires
        candidates.len() == there.len(),
        0 <= from <= candidates.len(),
    ensures
        match first_from(candidates, there, from) {
            Some(c) => exists|i: int|
                from <= i < candidates.len() && #[trigger] there[i] && candidates[i] == c
                    && forall|j: int| from <= j < i ==> !there[j],
            None => forall|i: int| from <= i < there.len() ==> !there[i],
        },
    decreases candidates.len() - from,
{
    if from < candidates.len() && !there[from] {
        lemma_first_from(candidates, there, from + 1);
    }
}

/// A program is found in the first directory that has it, and is missed only
/// where none has it; its path is its name below that directory.
pub proof fn law_program_is_found_in_the_first_directory(
    dirs: Vec<String>,
    name: &str,
    there: Vec<bool>,
    r: Option<String>,
)
    requires
        dirs@.len() == there@.len(),
        call_ensures(which, (&dirs, name, &there), r),
    ensures
        r is None <==> forall|i: int| 0 <= i < there@.len() ==> !#[trigger] there@[i],
        r matches Some(path) ==> exists|i: int|
            0 <= i < dirs@.len() && #[trigger] there@[i] && (forall|j: int|
                0 <= j < i ==> !#[trigger] there@[j]) && path@ == path_below(dirs@[i]@, name@) && (
            dirs@[i]@.len() > 0 && dirs@[i]@.last() != '/' ==> path@ == dirs@[i]@.push('/') + name@),
{
    let c = candidates_of(texts(dirs@), name@);
    assert(c.len() == dirs@.len());
    law_first_one_is_found(c, there@);
    if let Some(path) = r {
        let i = choose|i: int|
            0 <= i < c.len() && #[trigger] there@[i] && c[i] == path@ && forall|j: int|
                0 <= j < i ==> !there@[j];
        assert(texts(dirs@)[i] == dirs@[i]@);
        assert(c[i] == path_below(dirs@[i]@, name@));
        law_path_below(dirs@[i]@, name@);
        assert(there@[i]);
    }
}

/// There is one candidate for each directory, in their order.
pub proof fn law_one_candidate_per_directory(dirs: Vec<String>, name: &str, r: Vec<String>)
    requires
        call_ensures(search_candidates, (&dirs, name), r),
    ensures
        r@.len() == dirs@.len(),
        forall|i: int|
            0 <= i < dirs@.len() ==> (#[trigger] r@[i])@ == path_below(dirs@[i]@, name@),
{
    assert(texts(r@).len() == r@.len());
    assert forall|i: int| 0 <= i < dirs@.len() implies (#[trigger] r@[i])@ == path_below(
        dirs@[i]@,
        name@,
    ) by {
        assert(texts(r@)[i] == r@[i]@);
        assert(texts(dirs@)[i] == dirs@[i]@);
    }
}

} // verus!
