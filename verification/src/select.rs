use vstd::prelude::*;

use crate::error::Error;
use crate::media::MediaKind;
use crate::text::{lemma_lex_antisym, lemma_lex_total, lemma_lex_trans, lex_le, lex_leq};

verus! {

/// One classified workspace file: its name, the kind that classification
/// reported, and whether the authoritative filesystem check found a regular,
/// non-empty file.
#[derive(Debug)]
pub struct Candidate {
    pub path: String,
    pub kind: MediaKind,
    pub file_ok: bool,
}

/// A candidate that selection may keep: the filesystem check passed and the
/// kind is recognized.
pub open spec fn passes(c: Candidate) -> bool {
    c.file_ok && c.kind != MediaKind::Unknown
}

/// Kind preference: video outranks image outranks anything else.
pub open spec fn rank(k: MediaKind) -> int {
    match k {
        MediaKind::Video => 0,
        MediaKind::Image => 1,
        MediaKind::Unknown => 2,
    }
}

/// The selection order: kind preference first, then the path,
/// lexicographically, as the tie-break within a kind.
pub open spec fn cand_leq(a: Candidate, b: Candidate) -> bool {
    rank(a.kind) < rank(b.kind) || (rank(a.kind) == rank(b.kind) && lex_leq(a.path@, b.path@))
}

/// The selection order is total.
pub proof fn lemma_cand_total(a: Candidate, b: Candidate)
    ensures
        cand_leq(a, b) || cand_leq(b, a),
{
    lemma_lex_total(a.path@, b.path@);
}

/// The selection order is transitive.
pub proof fn lemma_cand_trans(a: Candidate, b: Candidate, c: Candidate)
    requires
        cand_leq(a, b),
        cand_leq(b, c),
    ensures
        cand_leq(a, c),
{
    if rank(a.kind) == rank(b.kind) && rank(b.kind) == rank(c.kind) {
        lemma_lex_trans(a.path@, b.path@, c.path@);
    }
}

/// Two passing candidates that precede each other carry the same kind and the
/// same path text.
pub proof fn lemma_cand_antisym(a: Candidate, b: Candidate)
    requires
        passes(a),
        passes(b),
        cand_leq(a, b),
        cand_leq(b, a),
    ensures
        a.kind == b.kind,
        a.path@ == b.path@,
{
    lemma_lex_antisym(a.path@, b.path@);
}

/// The winner among a sequence of candidates: the least passing candidate
/// under the selection order (the earliest such candidate, on exact ties), or
/// `None` when no candidate passes.
pub open spec fn best_of(s: Seq<Candidate>) -> Option<Candidate>
    decreases s.len(),
{
    if s.len() == 0 {
        None
    } else {
        let rest = best_of(s.drop_first());
        if !passes(s[0]) {
            rest
        } else {
            match rest {
                Option::None => Some(s[0]),
                Option::Some(b) => if cand_leq(s[0], b) {
                    Some(s[0])
                } else {
                    Some(b)
                },
            }
        }
    }
}

/// What `best_of` returns: nothing exactly when nothing passes, and otherwise
/// a passing element of the sequence that precedes every passing element.
pub proof fn lemma_best_of_is_min(s: Seq<Candidate>)
    ensures
        (best_of(s) is None) <==> (forall|i: int| 0 <= i < s.len() ==> !passes(#[trigger] s[i])),
        best_of(s) matches Some(c) ==> passes(c) && (exists|i: int| 0 <= i < s.len() && s[i] == c)
            && (forall|i: int| 0 <= i < s.len() && passes(#[trigger] s[i]) ==> cand_leq(c, s[i])),
    decreases s.len(),
{
    if s.len() > 0 {
        let rest = s.drop_first();
        lemma_best_of_is_min(rest);
        assert(forall|i: int| 1 <= i < s.len() ==> s[i] == #[trigger] rest[i - 1]);
        if best_of(s) is None {
            assert forall|i: int| 0 <= i < s.len() implies !passes(#[trigger] s[i]) by {
                if i >= 1 {
                    assert(!passes(rest[i - 1]));
                }
            }
        } else {
            if passes(s[0]) {
                assert(!(forall|i: int| 0 <= i < s.len() ==> !passes(#[trigger] s[i])));
            } else {
                let j = choose|j: int| 0 <= j < rest.len() && passes(#[trigger] rest[j]);
                assert(passes(s[j + 1]));
            }
        }
        match best_of(rest) {
            Option::None => {
                if passes(s[0]) {
                    assert(best_of(s) == Some(s[0]));
                    assert forall|i: int| 0 <= i < s.len() && passes(#[trigger] s[i])
                        implies cand_leq(s[0], s[i]) by {
                        if i >= 1 {
                            assert(!passes(rest[i - 1]));
                        } else {
                            lemma_cand_total(s[0], s[0]);
                        }
                    }
                }
            },
            Option::Some(b) => {
                let j = choose|j: int| 0 <= j < rest.len() && rest[j] == b;
                assert(s[j + 1] == b);
                let c = best_of(s)->Some_0;
                assert(c == b || (passes(s[0]) && c == s[0]));
                if passes(s[0]) {
                    lemma_cand_total(s[0], b);
                }
                assert forall|i: int| 0 <= i < s.len() && passes(#[trigger] s[i])
                    implies cand_leq(c, s[i]) by {
                    if i >= 1 {
                        assert(passes(rest[i - 1]));
                        assert(cand_leq(b, rest[i - 1]));
                        if c != b {
                            lemma_cand_trans(s[0], b, s[i]);
                        }
                    } else {
                        if c == b {
                            assert(cand_leq(b, s[0]));
                        } else {
                            lemma_cand_total(s[0], s[0]);
                        }
                    }
                }
            },
        }
    }
}

fn rank_exec(k: MediaKind) -> (r: u8)
    ensures
        r as int == rank(k),
{
    match k {
        MediaKind::Video => 0,
        MediaKind::Image => 1,
        MediaKind::Unknown => 2,
    }
}

/// Executable selection order on candidates.
fn cand_le(a: &Candidate, b: &Candidate) -> (r: bool)
    ensures
        r == cand_leq(*a, *b),
{
    let ra = rank_exec(a.kind);
    let rb = rank_exec(b.kind);
    if ra < rb {
        true
    } else if ra == rb {
        lex_le(a.path.as_str(), b.path.as_str())
    } else {
        false
    }
}

fn copy_candidate(c: &Candidate) -> (r: Candidate)
    ensures
        r == *c,
{
    Candidate { path: c.path.clone(), kind: c.kind, file_ok: c.file_ok }
}

/// Pick exactly one winner among the classified candidates: drop what failed
/// the filesystem check or classified as `Unknown`, prefer video over image,
/// and break ties by the lexicographically smaller path. An empty candidate
/// list, or one in which nothing qualifies, fails with `NoMediaFound`.
pub fn select_media(candidates: &Vec<Candidate>) -> (r: Result<Candidate, Error>)
    ensures
        r matches Ok(c) ==> best_of(candidates@) == Some(c),
        r matches Err(e) ==> e == Error::NoMediaFound && best_of(candidates@) is None,
        candidates@.len() == 0 ==> r == Result::<Candidate, Error>::Err(Error::NoMediaFound),
{
    let n = candidates.len();
    let mut best: Option<Candidate> = None;
    let mut i: usize = n;
    assert(candidates@.skip(n as int) =~= Seq::<Candidate>::empty());
    while i > 0
        invariant
            i <= n,
            n == candidates@.len(),
            best == best_of(candidates@.skip(i as int)),
        decreases i,
    {
        i = i - 1;
        let ghost suffix = candidates@.skip(i as int);
        proof {
            assert(suffix.drop_first() =~= candidates@.skip(i as int + 1));
            assert(suffix[0] == candidates@[i as int]);
        }
        let c = &candidates[i];
        if c.file_ok && !matches!(c.kind, MediaKind::Unknown) {
            best = match best {
                Option::None => Some(copy_candidate(c)),
                Option::Some(b) => {
                    if cand_le(c, &b) {
                        Some(copy_candidate(c))
                    } else {
                        Some(b)
                    }
                },
            };
        }
    }
    assert(candidates@.skip(0) =~= candidates@);
    match best {
        Option::Some(c) => Ok(c),
        Option::None => Err(Error::NoMediaFound),
    }
}

// --- The selection laws -----------------------------------------------------------

/// Kind preference: whenever any passing candidate is a video, the selection
/// returns a video, whatever the order of the input.
pub proof fn lemma_select_prefers_video(s: Seq<Candidate>, i: int)
    requires
        0 <= i < s.len(),
        passes(s[i]),
        s[i].kind == MediaKind::Video,
    ensures
        best_of(s) matches Some(c) && c.kind == MediaKind::Video,
{
    lemma_best_of_is_min(s);
    let c = best_of(s)->Some_0;
    assert(cand_leq(c, s[i]));
}

/// Tie-break: the winner's path is lexicographically no greater than the path
/// of any passing candidate of the same kind, independent of input order.
pub proof fn lemma_select_tiebreak(s: Seq<Candidate>, i: int)
    requires
        best_of(s) matches Some(c),
        0 <= i < s.len(),
        passes(s[i]),
        s[i].kind == best_of(s)->Some_0.kind,
    ensures
        lex_leq(best_of(s)->Some_0.path@, s[i].path@),
{
    lemma_best_of_is_min(s);
}

/// Determinism: however concurrent classification interleaved the candidates,
/// two arrangements of the same candidates select the same winner (same path
/// text and same kind), and fail together.
pub proof fn lemma_select_deterministic(s1: Seq<Candidate>, s2: Seq<Candidate>)
    requires
        s1.to_multiset() == s2.to_multiset(),
    ensures
        (best_of(s1) is None) == (best_of(s2) is None),
        best_of(s1) is Some && best_of(s2) is Some ==> best_of(s1)->Some_0.kind == best_of(
            s2,
        )->Some_0.kind && best_of(s1)->Some_0.path@ == best_of(s2)->Some_0.path@,
{
    broadcast use vstd::seq_lib::group_to_multiset_ensures;

    lemma_best_of_is_min(s1);
    lemma_best_of_is_min(s2);
    match (best_of(s1), best_of(s2)) {
        (Option::Some(c1), Option::Some(c2)) => {
            lemma_multiset_transfers_contains(s1, s2, c1);
            lemma_multiset_transfers_contains(s2, s1, c2);
            let i = choose|i: int| 0 <= i < s2.len() && s2[i] == c1;
            assert(passes(s2[i]) && cand_leq(c2, s2[i]));
            let j = choose|j: int| 0 <= j < s1.len() && s1[j] == c2;
            assert(passes(s1[j]) && cand_leq(c1, s1[j]));
            lemma_cand_antisym(c1, c2);
        },
        (Option::None, Option::Some(c2)) => {
            lemma_multiset_transfers_contains(s2, s1, c2);
            let j = choose|j: int| 0 <= j < s1.len() && s1[j] == c2;
            assert(passes(s1[j]));
        },
        (Option::Some(c1), Option::None) => {
            lemma_multiset_transfers_contains(s1, s2, c1);
            let i = choose|i: int| 0 <= i < s2.len() && s2[i] == c1;
            assert(passes(s2[i]));
        },
        (Option::None, Option::None) => {},
    }
}

proof fn lemma_multiset_transfers_contains(a: Seq<Candidate>, b: Seq<Candidate>, x: Candidate)
    requires
        a.to_multiset() == b.to_multiset(),
        a.contains(x),
    ensures
        b.contains(x),
{
    broadcast use vstd::seq_lib::group_to_multiset_ensures;

    assert(a.to_multiset().count(x) > 0);
}

} // verus!
