use vstd::prelude::*;

verus! {

// --- ASCII case folding -----------------------------------------------------

/// ASCII lower-casing of a single character; anything outside `A..=Z` is kept.
pub open spec fn lower_char(c: char) -> char {
    if 'A' <= c && c <= 'Z' {
        (c as u8 + 32) as char
    } else {
        c
    }
}

/// ASCII lower-casing of a whole character sequence.
pub open spec fn lower_chars(s: Seq<char>) -> Seq<char> {
    s.map_values(|c: char| lower_char(c))
}

/// Two character sequences are equal up to ASCII case.
pub open spec fn eq_ignore_case(a: Seq<char>, b: Seq<char>) -> bool {
    lower_chars(a) == lower_chars(b)
}

/// Lower-casing is idempotent: a lowered character is not an upper-case letter.
pub proof fn lemma_lower_char_idempotent(c: char)
    ensures
        lower_char(lower_char(c)) == lower_char(c),
{
}

/// Lower-casing a sequence twice is the same as doing it once.
pub proof fn lemma_lower_chars_idempotent(s: Seq<char>)
    ensures
        lower_chars(lower_chars(s)) == lower_chars(s),
{
    assert(lower_chars(lower_chars(s)) =~= lower_chars(s)) by {
        assert forall|i: int| 0 <= i < s.len() implies lower_chars(lower_chars(s))[i]
            == lower_chars(s)[i] by {
            lemma_lower_char_idempotent(s[i]);
        }
    }
}

/// Executable ASCII lower-casing of one character.
pub fn lower_char_exec(c: char) -> (r: char)
    ensures
        r == lower_char(c),
{
    if 'A' <= c && c <= 'Z' {
        (c as u8 + 32) as char
    } else {
        c
    }
}

/// Executable case-insensitive comparison of two string slices.
pub fn str_eq_ignore_case(a: &str, b: &str) -> (r: bool)
    ensures
        r == eq_ignore_case(a@, b@),
{
    let na = a.unicode_len();
    let nb = b.unicode_len();
    if na != nb {
        assert(lower_chars(a@).len() != lower_chars(b@).len());
        return false;
    }
    for i in 0..na
        invariant
            na == a@.len(),
            na == b@.len(),
            forall|j: int| 0 <= j < i ==> lower_chars(a@)[j] == lower_chars(b@)[j],
    {
        let ca = lower_char_exec(a.get_char(i));
        let cb = lower_char_exec(b.get_char(i));
        if ca != cb {
            assert(lower_chars(a@)[i as int] != lower_chars(b@)[i as int]);
            return false;
        }
    }
    assert(lower_chars(a@) =~= lower_chars(b@));
    true
}

/// Executable exact equality of two string slices.
pub fn str_eq(a: &str, b: &str) -> (r: bool)
    ensures
        r == (a@ == b@),
{
    let na = a.unicode_len();
    let nb = b.unicode_len();
    if na != nb {
        return false;
    }
    for i in 0..na
        invariant
            na == a@.len(),
            na == b@.len(),
            forall|j: int| 0 <= j < i ==> a@[j] == b@[j],
    {
        if a.get_char(i) != b.get_char(i) {
            return false;
        }
    }
    assert(a@ =~= b@);
    true
}

// --- Lexicographic order on character sequences -----------------------------

/// `a` comes no later than `b` in lexicographic (code-point) order.
pub open spec fn lex_leq(a: Seq<char>, b: Seq<char>) -> bool
    decreases a.len(),
{
    if a.len() == 0 {
        true
    } else if b.len() == 0 {
        false
    } else if a[0] != b[0] {
        a[0] < b[0]
    } else {
        lex_leq(a.drop_first(), b.drop_first())
    }
}

/// Lexicographic order is total.
pub proof fn lemma_lex_total(a: Seq<char>, b: Seq<char>)
    ensures
        lex_leq(a, b) || lex_leq(b, a),
    decreases a.len(),
{
    if a.len() > 0 && b.len() > 0 && a[0] == b[0] {
        lemma_lex_total(a.drop_first(), b.drop_first());
    }
}

/// Lexicographic order is antisymmetric.
pub proof fn lemma_lex_antisym(a: Seq<char>, b: Seq<char>)
    requires
        lex_leq(a, b),
        lex_leq(b, a),
    ensures
        a == b,
    decreases a.len(),
{
    if a.len() > 0 && b.len() > 0 && a[0] == b[0] {
        lemma_lex_antisym(a.drop_first(), b.drop_first());
        assert forall|i: int| 0 <= i < a.len() implies a[i] == b[i] by {
            if i >= 1 {
                assert(a.drop_first()[i - 1] == b.drop_first()[i - 1]);
            }
        }
        assert(a =~= b);
    } else {
        assert(a.len() == 0 && b.len() == 0);
        assert(a =~= b);
    }
}

/// Lexicographic order is transitive.
pub proof fn lemma_lex_trans(a: Seq<char>, b: Seq<char>, c: Seq<char>)
    requires
        lex_leq(a, b),
        lex_leq(b, c),
    ensures
        lex_leq(a, c),
    decreases a.len(),
{
    if a.len() > 0 && b.len() > 0 && c.len() > 0 && a[0] == b[0] && b[0] == c[0] {
        lemma_lex_trans(a.drop_first(), b.drop_first(), c.drop_first());
    }
}

/// Comparing two sequences that agree on a common prefix reduces to comparing
/// what remains past that prefix.
proof fn lemma_lex_skip(a: Seq<char>, b: Seq<char>, i: int)
    requires
        0 <= i <= a.len(),
        i <= b.len(),
        forall|j: int| 0 <= j < i ==> a[j] == b[j],
    ensures
        lex_leq(a, b) == lex_leq(a.skip(i), b.skip(i)),
    decreases i,
{
    if i > 0 {
        lemma_lex_skip(a.drop_first(), b.drop_first(), i - 1);
        assert(a.drop_first().skip(i - 1) =~= a.skip(i));
        assert(b.drop_first().skip(i - 1) =~= b.skip(i));
    } else {
        assert(a.skip(0) =~= a);
        assert(b.skip(0) =~= b);
    }
}

/// Executable lexicographic comparison of two string slices.
pub fn lex_le(a: &str, b: &str) -> (r: bool)
    ensures
        r == lex_leq(a@, b@),
{
    let na = a.unicode_len();
    let nb = b.unicode_len();
    let mut i: usize = 0;
    loop
        invariant
            na == a@.len(),
            nb == b@.len(),
            i <= na,
            i <= nb,
            forall|j: int| 0 <= j < i ==> a@[j] == b@[j],
        decreases na - i,
    {
        proof {
            lemma_lex_skip(a@, b@, i as int);
        }
        if i == na {
            return true;
        }
        if i == nb {
            return false;
        }
        let ca = a.get_char(i);
        let cb = b.get_char(i);
        if ca != cb {
            assert(a@.skip(i as int)[0] == ca);
            assert(b@.skip(i as int)[0] == cb);
            return ca < cb;
        }
        i = i + 1;
    }
}

// --- Prefix test -------------------------------------------------------------

/// `s` starts with the prefix `p`.
pub open spec fn starts_with(s: Seq<char>, p: Seq<char>) -> bool {
    p.len() <= s.len() && s.take(p.len() as int) == p
}

/// Executable prefix test on string slices.
pub fn str_starts_with(s: &str, p: &str) -> (r: bool)
    ensures
        r == starts_with(s@, p@),
{
    let ns = s.unicode_len();
    let np = p.unicode_len();
    if np > ns {
        return false;
    }
    for i in 0..np
        invariant
            ns == s@.len(),
            np == p@.len(),
            np <= ns,
            forall|j: int| 0 <= j < i ==> s@[j] == p@[j],
    {
        if s.get_char(i) != p.get_char(i) {
            assert(s@.take(np as int)[i as int] != p@[i as int]);
            return false;
        }
    }
    assert(s@.take(np as int) =~= p@);
    true
}

// --- Case-insensitive substring search ----------------------------------------

/// `s` holds `t` somewhere as a contiguous run, up to ASCII case.
pub open spec fn contains_ignore_case(s: Seq<char>, t: Seq<char>) -> bool {
    exists|i: int|
        0 <= i && i + t.len() <= s.len() && eq_ignore_case(
            #[trigger] s.subrange(i, i + t.len() as int),
            t,
        )
}

/// Executable case-insensitive substring search.
pub fn str_contains_ignore_case(s: &str, t: &str) -> (r: bool)
    ensures
        r == contains_ignore_case(s@, t@),
{
    let ns = s.unicode_len();
    let nt = t.unicode_len();
    if nt > ns {
        return false;
    }
    if nt == 0 {
        assert(contains_ignore_case(s@, t@)) by {
            assert(eq_ignore_case(s@.subrange(0, 0 + t@.len() as int), t@)) by {
                assert(s@.subrange(0, 0 + t@.len() as int) =~= t@);
            }
        }
        return true;
    }
    let mut i: usize = 0;
    while i <= ns - nt
        invariant
            ns == s@.len(),
            nt == t@.len(),
            0 < nt <= ns,
            i <= ns,
            forall|w: int|
                0 <= w < i ==> !eq_ignore_case(#[trigger] s@.subrange(w, w + t@.len() as int), t@),
        decreases ns - i,
    {
        let ghost win = s@.subrange(i as int, i + t@.len() as int);
        let mut all_eq = true;
        for j in 0..nt
            invariant
                ns == s@.len(),
                nt == t@.len(),
                i + nt <= ns,
                win == s@.subrange(i as int, i + t@.len() as int),
                all_eq <==> forall|k: int| 0 <= k < j ==> lower_char(win[k]) == lower_char(t@[k]),
        {
            assert(win[j as int] == s@[i + j]);
            let ca = lower_char_exec(s.get_char(i + j));
            let cb = lower_char_exec(t.get_char(j));
            if ca != cb {
                all_eq = false;
            }
        }
        if all_eq {
            assert(eq_ignore_case(win, t@)) by {
                assert(lower_chars(win) =~= lower_chars(t@));
            }
            return true;
        }
        proof {
            let k = choose|k: int| !(0 <= k < nt ==> lower_char(win[k]) == lower_char(t@[k]));
            assert(lower_chars(win)[k] != lower_chars(t@)[k]);
            assert(!eq_ignore_case(win, t@));
        }
        i = i + 1;
    }
    false
}

// --- ASCII whitespace trimming ------------------------------------------------

/// The ASCII whitespace characters that trimming removes.
pub open spec fn is_space(c: char) -> bool {
    c == ' ' || c == '\t' || c == '\n' || c == '\r' || c == '\u{b}' || c == '\u{c}'
}

/// Drop ASCII whitespace from the front of a sequence.
pub open spec fn trim_front(s: Seq<char>) -> Seq<char>
    decreases s.len(),
{
    if s.len() > 0 && is_space(s[0]) {
        trim_front(s.drop_first())
    } else {
        s
    }
}

/// Drop ASCII whitespace from the back of a sequence.
pub open spec fn trim_back(s: Seq<char>) -> Seq<char>
    decreases s.len(),
{
    if s.len() > 0 && is_space(s[s.len() - 1]) {
        trim_back(s.drop_last())
    } else {
        s
    }
}

/// Drop ASCII whitespace from both ends of a sequence.
pub open spec fn trim_spec(s: Seq<char>) -> Seq<char> {
    trim_back(trim_front(s))
}

proof fn lemma_trim_front_at(s: Seq<char>, i: int)
    requires
        0 <= i <= s.len(),
        forall|j: int| 0 <= j < i ==> is_space(s[j]),
        i < s.len() ==> !is_space(s[i]),
    ensures
        trim_front(s) == s.skip(i),
    decreases i,
{
    if i == 0 {
        assert(s.skip(0) =~= s);
    } else {
        lemma_trim_front_at(s.drop_first(), i - 1);
        assert(s.drop_first().skip(i - 1) =~= s.skip(i));
    }
}

proof fn lemma_trim_back_at(s: Seq<char>, i: int)
    requires
        0 <= i <= s.len(),
        forall|j: int| i <= j < s.len() ==> is_space(s[j]),
        i > 0 ==> !is_space(s[i - 1]),
    ensures
        trim_back(s) == s.take(i),
    decreases s.len() - i,
{
    if i == s.len() {
        if s.len() > 0 && is_space(s[s.len() - 1]) {
            lemma_trim_back_at(s.drop_last(), i - 1);
            assert(s.drop_last().take(i - 1) =~= s.take(i - 1));
            assert(s.take(i - 1) =~= s.take(i).drop_last());
            assert(trim_back(s) == s.take(i));
        } else {
            assert(s.take(i) =~= s);
        }
    } else {
        lemma_trim_back_at(s.drop_last(), i);
        assert(s.drop_last().take(i) =~= s.take(i));
    }
}

/// Trim ASCII whitespace from both ends of a string slice.
pub fn trim(s: &str) -> (r: &str)
    ensures
        r@ == trim_spec(s@),
{
    let n = s.unicode_len();
    let mut lo: usize = 0;
    while lo < n && is_space_exec(s.get_char(lo))
        invariant
            n == s@.len(),
            lo <= n,
            forall|j: int| 0 <= j < lo ==> is_space(s@[j]),
        decreases n - lo,
    {
        lo = lo + 1;
    }
    proof {
        lemma_trim_front_at(s@, lo as int);
    }
    if lo == n {
        let r = s.substring_char(lo, n);
        assert(r@ =~= trim_spec(s@));
        return r;
    }
    let mut hi: usize = n;
    while hi > lo && is_space_exec(s.get_char(hi - 1))
        invariant
            n == s@.len(),
            lo <= hi <= n,
            forall|j: int| hi <= j < n ==> is_space(s@[j]),
        decreases hi,
    {
        hi = hi - 1;
    }
    proof {
        let t = s@.skip(lo as int);
        assert(!is_space(s@[lo as int]));
        assert(hi > lo);
        lemma_trim_back_at(t, hi - lo);
        assert(t.take(hi - lo) =~= s@.subrange(lo as int, hi as int));
    }
    let r = s.substring_char(lo, hi);
    assert(r@ == trim_spec(s@));
    r
}

// --- Splitting text into lines --------------------------------------------------

/// Index of the first occurrence of `c` in `s`, or `s.len()` when `c` does
/// not occur.
pub open spec fn find_char(s: Seq<char>, c: char) -> int
    decreases s.len(),
{
    if s.len() == 0 {
        0
    } else if s[0] == c {
        0
    } else {
        1 + find_char(s.drop_first(), c)
    }
}

/// What `find_char` returns: the position of the first occurrence.
pub proof fn lemma_find_char(s: Seq<char>, c: char)
    ensures
        0 <= find_char(s, c) <= s.len(),
        forall|j: int| 0 <= j < find_char(s, c) ==> s[j] != c,
        find_char(s, c) < s.len() ==> s[find_char(s, c)] == c,
    decreases s.len(),
{
    if s.len() > 0 && s[0] != c {
        lemma_find_char(s.drop_first(), c);
        assert forall|j: int| 0 <= j < find_char(s, c) implies s[j] != c by {
            if j >= 1 {
                assert(s.drop_first()[j - 1] != c);
                assert(s[j] == s.drop_first()[j - 1]);
            }
        }
    }
}

/// Split on newline characters, as a line reader does: a trailing newline
/// ends the last line without starting an empty one.
pub open spec fn split_lines(s: Seq<char>) -> Seq<Seq<char>>
    decreases s.len(),
{
    if s.len() == 0 {
        Seq::empty()
    } else {
        let i = find_char(s, '\n');
        if 0 <= i < s.len() {
            seq![s.take(i)] + split_lines(s.skip(i + 1))
        } else {
            seq![s]
        }
    }
}

/// Splitting steps over one line at a time: if the text from `pos` on has its
/// first newline at `j` (or none up to its end at `j == s.len()`), the lines
/// from `pos` are the segment `[pos, j)` followed by the lines from past the
/// newline.
pub proof fn lemma_split_lines_at(s: Seq<char>, pos: int, j: int)
    requires
        0 <= pos <= j <= s.len(),
        pos < s.len(),
        forall|k: int| pos <= k < j ==> s[k] != '\n',
        j < s.len() ==> s[j] == '\n',
    ensures
        split_lines(s.skip(pos)) == seq![s.subrange(pos, j)] + split_lines(
            s.skip(if j < s.len() {
                j + 1
            } else {
                j
            }),
        ),
{
    let t = s.skip(pos);
    lemma_find_char(t, '\n');
    let i = find_char(t, '\n');
    assert(forall|k: int| 0 <= k < t.len() ==> t[k] == s[pos + k]);
    if i < j - pos {
        assert(t[i] == '\n');
        assert(s[pos + i] == '\n');
        assert(false);
    }
    if i > j - pos {
        assert(j < s.len());
        assert(t[j - pos] == '\n');
        assert(false);
    }
    assert(i == j - pos);
    if j < s.len() {
        assert(t.take(i) =~= s.subrange(pos, j));
        assert(t.skip(i + 1) =~= s.skip(j + 1));
    } else {
        assert(i == t.len());
        assert(t =~= s.subrange(pos, j));
        assert(s.skip(j) =~= Seq::<char>::empty());
        assert(split_lines(s.skip(j)) =~= Seq::<Seq<char>>::empty());
        assert(seq![t] + split_lines(s.skip(j)) =~= seq![t]);
    }
}

/// Executable test for the ASCII whitespace set.
pub fn is_space_exec(c: char) -> (r: bool)
    ensures
        r == is_space(c),
{
    c == ' ' || c == '\t' || c == '\n' || c == '\r' || c == '\u{b}' || c == '\u{c}'
}

} // verus!
