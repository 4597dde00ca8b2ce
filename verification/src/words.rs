//! Trimming, splitting and joining of character sequences.
use vstd::prelude::*;
use crate::text::{is_white_space, matches_at, occurs_at, push_chars, slice};

verus! {

/// The texts held by a sequence of character vectors or strings.
pub open spec fn views<T: View>(v: Seq<T>) -> Seq<T::V> {
    Seq::new(v.len(), |i: int| v[i]@)
}

/// Appending an element appends its view.
pub proof fn lemma_views_push<T: View>(v: Seq<T>, x: T)
    ensures
        views(v.push(x)) == views(v).push(x@),
{
    assert(views(v.push(x)) =~= views(v).push(x@));
}

/// What a sequence holds once an element is appended.
pub proof fn lemma_push_contains<T>(s: Seq<T>, y: T, x: T)
    ensures
        s.push(y).contains(x) <==> s.contains(x) || x == y,
{
    if s.contains(x) {
        let i = choose|i: int| 0 <= i < s.len() && s[i] == x;
        assert(s.push(y)[i] == x);
    }
    if x == y {
        assert(s.push(y)[s.len() as int] == x);
    }
    if s.push(y).contains(x) {
        let i = choose|i: int| 0 <= i < s.push(y).len() && s.push(y)[i] == x;
        if i < s.len() {
            assert(s[i] == x);
        }
    }
}

/// What two sequences hold, put one after the other.
pub proof fn lemma_add_contains<T>(a: Seq<T>, b: Seq<T>, x: T)
    ensures
        (a + b).contains(x) <==> a.contains(x) || b.contains(x),
{
    if a.contains(x) {
        let i = choose|i: int| 0 <= i < a.len() && a[i] == x;
        assert((a + b)[i] == x);
    }
    if b.contains(x) {
        let i = choose|i: int| 0 <= i < b.len() && b[i] == x;
        assert((a + b)[a.len() + i] == x);
    }
    if (a + b).contains(x) {
        let i = choose|i: int| 0 <= i < (a + b).len() && (a + b)[i] == x;
        if i < a.len() {
            assert(a[i] == x);
        } else {
            assert(b[i - a.len()] == x);
        }
    }
}

/// The first index at or after `i` that holds no white space; the length of
/// `s` where there is none.
pub open spec fn skip_whitespace(s: Seq<char>, i: int) -> int
    decreases s.len() - i,
{
    if 0 <= i < s.len() && is_white_space(s[i]) {
        skip_whitespace(s, i + 1)
    } else {
        i
    }
}

/// The first index at or after `i` that holds white space; the length of `s`
/// where there is none.
pub open spec fn skip_word(s: Seq<char>, i: int) -> int
    decreases s.len() - i,
{
    if 0 <= i < s.len() && !is_white_space(s[i]) {
        skip_word(s, i + 1)
    } else {
        i
    }
}

/// The least `m <= n` such that `s` holds only white space from `m` up to `n`.
pub open spec fn trim_end_from(s: Seq<char>, n: int) -> int
    decreases n,
{
    if 0 < n <= s.len() && is_white_space(s[n - 1]) {
        trim_end_from(s, n - 1)
    } else {
        n
    }
}

/// What `skip_whitespace` skips is white space, and it stops at the first
/// character that is none.
pub proof fn lemma_skip_whitespace(s: Seq<char>, i: int)
    requires
        0 <= i <= s.len(),
    ensures
        i <= skip_whitespace(s, i) <= s.len(),
        forall|k: int| i <= k < skip_whitespace(s, i) ==> is_white_space(s[k]),
        skip_whitespace(s, i) < s.len() ==> !is_white_space(s[skip_whitespace(s, i)]),
    decreases s.len() - i,
{
    if i < s.len() && is_white_space(s[i]) {
        lemma_skip_whitespace(s, i + 1);
    }
}

/// What `skip_word` skips is no white space, and it stops at the first
/// character that is.
pub proof fn lemma_skip_word(s: Seq<char>, i: int)
    requires
        0 <= i <= s.len(),
    ensures
        i <= skip_word(s, i) <= s.len(),
        forall|k: int| i <= k < skip_word(s, i) ==> !is_white_space(s[k]),
        skip_word(s, i) < s.len() ==> is_white_space(s[skip_word(s, i)]),
    decreases s.len() - i,
{
    if i < s.len() && !is_white_space(s[i]) {
        lemma_skip_word(s, i + 1);
    }
}

/// What `trim_end_from` cuts off is white space, and what it leaves does not
/// end in white space.
pub proof fn lemma_trim_end_from(s: Seq<char>, n: int)
    requires
        0 <= n <= s.len(),
    ensures
        0 <= trim_end_from(s, n) <= n,
        forall|k: int| trim_end_from(s, n) <= k < n ==> is_white_space(s[k]),
        trim_end_from(s, n) > 0 ==> !is_white_space(s[trim_end_from(s, n) - 1]),
    decreases n,
{
    if 0 < n && is_white_space(s[n - 1]) {
        lemma_trim_end_from(s, n - 1);
    }
}

/// `s` without the white space at its start.
pub open spec fn spec_trim_start(s: Seq<char>) -> Seq<char> {
    s.subrange(skip_whitespace(s, 0), s.len() as int)
}

/// `s` without the white space at its end.
pub open spec fn spec_trim_end(s: Seq<char>) -> Seq<char> {
    s.subrange(0, trim_end_from(s, s.len() as int))
}

/// `s` without the white space at its start and at its end.
pub open spec fn spec_trim(s: Seq<char>) -> Seq<char> {
    let a = skip_whitespace(s, 0);
    let b = trim_end_from(s, s.len() as int);
    if a <= b {
        s.subrange(a, b)
    } else {
        Seq::empty()
    }
}

/// A trimmed text is no longer than the text, and neither starts nor ends
/// with white space.
pub proof fn lemma_trim(s: Seq<char>)
    ensures
        spec_trim(s).len() <= s.len(),
        spec_trim(s).len() > 0 ==> !is_white_space(spec_trim(s).first()) && !is_white_space(
            spec_trim(s).last(),
        ),
        spec_trim(s).len() == 0 <==> forall|k: int| 0 <= k < s.len() ==> is_white_space(s[k]),
{
    lemma_skip_whitespace(s, 0);
    lemma_trim_end_from(s, s.len() as int);
    let a = skip_whitespace(s, 0);
    let b = trim_end_from(s, s.len() as int);
    if a < s.len() {
        assert(!is_white_space(s[a]));
        assert(a < b);
    }
}

/// The index of the first character of `v`, at or after `i`, that is no
/// white space.
pub fn skip_whitespace_index(v: &Vec<char>, i: usize) -> (r: usize)
    requires
        i <= v.len(),
    ensures
        r == skip_whitespace(v@, i as int),
        i <= r <= v.len(),
{
    let mut k: usize = i;
    while k < v.len() && v[k].is_whitespace()
        invariant
            i <= k <= v.len(),
            skip_whitespace(v@, k as int) == skip_whitespace(v@, i as int),
        decreases v.len() - k,
    {
        k += 1;
    }
    k
}

/// The index of the first character of `v`, at or after `i`, that is white
/// space.
pub fn skip_word_index(v: &Vec<char>, i: usize) -> (r: usize)
    requires
        i <= v.len(),
    ensures
        r == skip_word(v@, i as int),
        i <= r <= v.len(),
{
    let mut k: usize = i;
    while k < v.len() && !v[k].is_whitespace()
        invariant
            i <= k <= v.len(),
            skip_word(v@, k as int) == skip_word(v@, i as int),
        decreases v.len() - k,
    {
        k += 1;
    }
    k
}

/// The length of `v` once the white space at its end is cut off.
pub fn trim_end_index(v: &Vec<char>) -> (r: usize)
    ensures
        r == trim_end_from(v@, v@.len() as int),
        r <= v.len(),
{
    let mut k: usize = v.len();
    while k > 0 && v[k - 1].is_whitespace()
        invariant
            k <= v.len(),
            trim_end_from(v@, k as int) == trim_end_from(v@, v@.len() as int),
        decreases k,
    {
        k -= 1;
    }
    k
}

/// `v` without the white space at its start.
pub fn trim_start(v: &Vec<char>) -> (r: Vec<char>)
    ensures
        r@ == spec_trim_start(v@),
{
    let a = skip_whitespace_index(v, 0);
    slice(v, a, v.len())
}

/// `v` without the white space at its end.
pub fn trim_end(v: &Vec<char>) -> (r: Vec<char>)
    ensures
        r@ == spec_trim_end(v@),
{
    let b = trim_end_index(v);
    slice(v, 0, b)
}

/// `v` without the white space at its start and at its end.
pub fn trim(v: &Vec<char>) -> (r: Vec<char>)
    ensures
        r@ == spec_trim(v@),
{
    let a = skip_whitespace_index(v, 0);
    let b = trim_end_index(v);
    if a <= b {
        slice(v, a, b)
    } else {
        Vec::new()
    }
}

/// Whether `v` holds nothing but white space.
pub fn is_blank(v: &Vec<char>) -> (r: bool)
    ensures
        r == (spec_trim(v@).len() == 0),
{
    let a = skip_whitespace_index(v, 0);
    proof {
        lemma_trim(v@);
        lemma_skip_whitespace(v@, 0);
    }
    a == v.len()
}

/// The maximal runs of characters of `s`, from index `i` on, that hold no
/// white space.
pub open spec fn split_whitespace_from(s: Seq<char>, i: int) -> Seq<Seq<char>>
    decreases s.len() - i,
{
    let a = skip_whitespace(s, i);
    if i < 0 || a >= s.len() {
        Seq::empty()
    } else {
        let b = skip_word(s, a + 1);
        proof {
            lemma_skip_whitespace(s, i);
            lemma_skip_word(s, a + 1);
        }
        seq![s.subrange(a, b)] + split_whitespace_from(s, b)
    }
}

/// The words of `s`: its maximal runs of characters that are no white space.
pub open spec fn spec_split_whitespace(s: Seq<char>) -> Seq<Seq<char>> {
    split_whitespace_from(s, 0)
}

/// Whether a text is a word: it is not empty and holds no white space.
pub open spec fn is_word(w: Seq<char>) -> bool {
    w.len() > 0 && forall|j: int| 0 <= j < w.len() ==> !is_white_space(#[trigger] w[j])
}

/// What `split_whitespace_from` gives are words.
pub proof fn lemma_split_whitespace_gives_words(s: Seq<char>, i: int)
    requires
        0 <= i <= s.len(),
    ensures
        forall|k: int|
            0 <= k < split_whitespace_from(s, i).len() ==> is_word(
                #[trigger] split_whitespace_from(s, i)[k],
            ),
    decreases s.len() - i,
{
    let a = skip_whitespace(s, i);
    lemma_skip_whitespace(s, i);
    if a < s.len() {
        let b = skip_word(s, a + 1);
        lemma_skip_word(s, a + 1);
        lemma_split_whitespace_gives_words(s, b);
        let word = s.subrange(a, b);
        let rest = split_whitespace_from(s, b);
        let all = split_whitespace_from(s, i);
        assert(is_word(word)) by {
            assert forall|j: int| 0 <= j < word.len() implies !is_white_space(
                #[trigger] word[j],
            ) by {
                assert(word[j] == s[a + j]);
            }
        }
        assert forall|k: int| 0 <= k < all.len() implies is_word(#[trigger] all[k]) by {
            if k == 0 {
                assert(all[0] == word);
            } else {
                assert(all[k] == rest[k - 1]);
            }
        }
    }
}

/// The words of `v`: its maximal runs of characters that are no white space.
pub fn split_whitespace(v: &Vec<char>) -> (r: Vec<Vec<char>>)
    ensures
        views(r@) == spec_split_whitespace(v@),
{
    let mut out: Vec<Vec<char>> = Vec::new();
    let mut i: usize = 0;
    assert(views(out@) =~= Seq::<Seq<char>>::empty());
    loop
        invariant
            i <= v.len(),
            views(out@) + split_whitespace_from(v@, i as int) == spec_split_whitespace(v@),
        decreases v.len() - i,
    {
        let a = skip_whitespace_index(v, i);
        if a >= v.len() {
            assert(views(out@) + Seq::<Seq<char>>::empty() =~= views(out@));
            return out;
        }
        let b = skip_word_index(v, a + 1);
        let word = slice(v, a, b);
        proof {
            lemma_views_push(out@, word);
            assert((views(out@) + seq![word@]) + split_whitespace_from(v@, b as int) =~= views(
                out@,
            ) + (seq![word@] + split_whitespace_from(v@, b as int)));
            assert(views(out@).push(word@) =~= views(out@) + seq![word@]);
        }
        out.push(word);
        i = b;
    }
}

/// The parts of `parts` in one text, with `sep` between each two.
pub open spec fn spec_join(parts: Seq<Seq<char>>, sep: Seq<char>) -> Seq<char>
    decreases parts.len(),
{
    if parts.len() == 0 {
        Seq::empty()
    } else if parts.len() == 1 {
        parts[0]
    } else {
        spec_join(parts.drop_last(), sep) + sep + parts.last()
    }
}

/// The texts of `parts` from index `from` up to `to`, in one text, with
/// `sep` between each two.
pub fn join_range(parts: &Vec<Vec<char>>, from: usize, to: usize, sep: &Vec<char>) -> (r: Vec<
    char,
>)
    requires
        from <= to <= parts.len(),
    ensures
        r@ == spec_join(views(parts@).subrange(from as int, to as int), sep@),
{
    let ghost all = views(parts@).subrange(from as int, to as int);
    let mut out: Vec<char> = Vec::new();
    let mut i: usize = from;
    while i < to
        invariant
            from <= i <= to <= parts.len(),
            all == views(parts@).subrange(from as int, to as int),
            out@ == spec_join(all.take(i - from), sep@),
        decreases to - i,
    {
        let ghost before = all.take(i - from);
        let ghost after = all.take(i + 1 - from);
        assert(after.drop_last() =~= before);
        assert(after.last() == parts@[i as int]@);
        if i > from {
            push_chars(&mut out, sep);
        } else {
            assert(before.len() == 0);
            assert(out@ + parts@[i as int]@ =~= parts@[i as int]@);
        }
        push_chars(&mut out, &parts[i]);
        i += 1;
    }
    assert(all.take(to - from) =~= all);
    out
}

/// The texts of `parts` in one text, with `sep` between each two.
pub fn join(parts: &Vec<Vec<char>>, sep: &Vec<char>) -> (r: Vec<char>)
    ensures
        r@ == spec_join(views(parts@), sep@),
{
    assert(views(parts@).subrange(0, parts@.len() as int) =~= views(parts@));
    join_range(parts, 0, parts.len(), sep)
}

/// Concatenating two sequences concatenates their texts.
pub proof fn lemma_views_add<T: View>(a: Seq<T>, b: Seq<T>)
    ensures
        views(a + b) == views(a) + views(b),
{
    assert(views(a + b) =~= views(a) + views(b));
}

/// The pieces of `s` between the occurrences of `sep`, found from left to
/// right without overlap, for the piece that starts at `start` and the scan
/// that stands at `i`.
pub open spec fn split_from(s: Seq<char>, sep: Seq<char>, start: int, i: int) -> Seq<Seq<char>>
    decreases s.len() - i,
{
    if sep.len() == 0 || start < 0 || i < start || i + sep.len() > s.len() {
        seq![s.subrange(start, s.len() as int)]
    } else if occurs_at(s, sep, i) {
        seq![s.subrange(start, i)] + split_from(s, sep, i + sep.len(), i + sep.len())
    } else {
        split_from(s, sep, start, i + 1)
    }
}

/// The pieces of `s` between the occurrences of `sep`: one more piece than
/// there are occurrences, empty pieces included. With an empty `sep` the one
/// piece is `s`.
pub open spec fn spec_split(s: Seq<char>, sep: Seq<char>) -> Seq<Seq<char>> {
    split_from(s, sep, 0, 0)
}

/// The pieces of `v` between the occurrences of `sep`.
pub fn split(v: &Vec<char>, sep: &Vec<char>) -> (r: Vec<Vec<char>>)
    ensures
        views(r@) == spec_split(v@, sep@),
        r.len() > 0,
{
    let mut out: Vec<Vec<char>> = Vec::new();
    let mut start: usize = 0;
    let mut i: usize = 0;
    assert(views(out@) =~= Seq::<Seq<char>>::empty());
    if sep.len() > 0 {
        while sep.len() <= v.len() && i <= v.len() - sep.len()
            invariant
                sep.len() > 0,
                start <= i <= v.len(),
                views(out@) + split_from(v@, sep@, start as int, i as int) == spec_split(
                    v@,
                    sep@,
                ),
            decreases v.len() - i,
        {
            if matches_at(v, sep, i) {
                let piece = slice(v, start, i);
                proof {
                    lemma_views_push(out@, piece);
                    let rest = split_from(
                        v@,
                        sep@,
                        i as int + sep@.len(),
                        i as int + sep@.len(),
                    );
                    assert((views(out@) + seq![piece@]) + rest =~= views(out@) + (seq![piece@]
                        + rest));
                    assert(views(out@).push(piece@) =~= views(out@) + seq![piece@]);
                }
                out.push(piece);
                i = i + sep.len();
                start = i;
            } else {
                i += 1;
            }
        }
    }
    let piece = slice(v, start, v.len());
    proof {
        lemma_views_push(out@, piece);
        assert(views(out@).push(piece@) =~= views(out@) + seq![piece@]);
    }
    out.push(piece);
    out
}

/// `s` from index `i` on, with `with` in the place of every occurrence of
/// `pat`, found from left to right without overlap.
pub open spec fn replace_from(s: Seq<char>, pat: Seq<char>, with: Seq<char>, i: int) -> Seq<char>
    decreases s.len() - i,
{
    if pat.len() == 0 || i < 0 || i >= s.len() {
        if 0 <= i <= s.len() {
            s.subrange(i, s.len() as int)
        } else {
            Seq::empty()
        }
    } else if occurs_at(s, pat, i) {
        with + replace_from(s, pat, with, i + pat.len())
    } else {
        seq![s[i]] + replace_from(s, pat, with, i + 1)
    }
}

/// `s` with `with` in the place of every occurrence of `pat`. With an empty
/// `pat` the result is `s`.
pub open spec fn spec_replace(s: Seq<char>, pat: Seq<char>, with: Seq<char>) -> Seq<char> {
    replace_from(s, pat, with, 0)
}

/// `v` with `with` in the place of every occurrence of `pat`.
pub fn replace(v: &Vec<char>, pat: &Vec<char>, with: &Vec<char>) -> (r: Vec<char>)
    ensures
        r@ == spec_replace(v@, pat@, with@),
{
    let mut out: Vec<char> = Vec::new();
    let mut i: usize = 0;
    if pat.len() == 0 {
        assert(v@.subrange(0, v@.len() as int) =~= v@);
        return slice(v, 0, v.len());
    }
    assert(out@ + replace_from(v@, pat@, with@, 0) =~= spec_replace(v@, pat@, with@));
    while i < v.len()
        invariant
            i <= v.len(),
            pat.len() > 0,
            out@ + replace_from(v@, pat@, with@, i as int) == spec_replace(v@, pat@, with@),
        decreases v.len() - i,
    {
        if matches_at(v, pat, i) {
            proof {
                let rest = replace_from(v@, pat@, with@, i + pat@.len());
                assert((out@ + with@) + rest =~= out@ + (with@ + rest));
            }
            push_chars(&mut out, with);
            i = i + pat.len();
        } else {
            proof {
                let rest = replace_from(v@, pat@, with@, i + 1);
                assert(out@.push(v@[i as int]) + rest =~= out@ + (seq![v@[i as int]] + rest));
            }
            out.push(v[i]);
            i += 1;
        }
    }
    assert(v@.subrange(v@.len() as int, v@.len() as int) =~= Seq::<char>::empty());
    assert(out@ + Seq::<char>::empty() =~= out@);
    out
}

/// The first index, from `i` on, at which `c` stands in `s`.
pub open spec fn index_of_char(s: Seq<char>, c: char, i: int) -> Option<int>
    decreases s.len() - i,
{
    if i < 0 || i >= s.len() {
        None
    } else if s[i] == c {
        Some(i)
    } else {
        index_of_char(s, c, i + 1)
    }
}

/// The index `index_of_char` gives lies in `s` from `i` on and holds `c`,
/// and no index before it does.
pub proof fn lemma_index_of_char(s: Seq<char>, c: char, i: int)
    requires
        0 <= i,
    ensures
        match index_of_char(s, c, i) {
            Some(k) => i <= k < s.len() && s[k] == c && forall|j: int| i <= j < k ==> s[j] != c,
            None => forall|j: int| i <= j < s.len() ==> s[j] != c,
        },
    decreases s.len() - i,
{
    if i < s.len() && s[i] != c {
        lemma_index_of_char(s, c, i + 1);
    }
}

/// The first index, from `from` on, at which `c` stands in `v`.
pub fn find_char(v: &Vec<char>, c: char, from: usize) -> (r: Option<usize>)
    ensures
        match r {
            Some(k) => index_of_char(v@, c, from as int) == Some(k as int) && from <= k < v.len(),
            None => index_of_char(v@, c, from as int) is None,
        },
{
    let mut i: usize = from;
    while i < v.len()
        invariant
            from <= i,
            index_of_char(v@, c, i as int) == index_of_char(v@, c, from as int),
        decreases v.len() - i,
    {
        if v[i] == c {
            return Some(i);
        }
        i += 1;
    }
    None
}

/// The last index before `n` at which `c` stands in `s`.
pub open spec fn last_index_of_char(s: Seq<char>, c: char, n: int) -> Option<int>
    decreases n,
{
    if n <= 0 || n > s.len() {
        None
    } else if s[n - 1] == c {
        Some(n - 1)
    } else {
        last_index_of_char(s, c, n - 1)
    }
}

/// The last index at which `c` stands in `v`.
pub fn rfind_char(v: &Vec<char>, c: char) -> (r: Option<usize>)
    ensures
        match r {
            Some(k) => last_index_of_char(v@, c, v@.len() as int) == Some(k as int) && k
                < v.len(),
            None => last_index_of_char(v@, c, v@.len() as int) is None,
        },
{
    let mut n: usize = v.len();
    while n > 0
        invariant
            n <= v.len(),
            last_index_of_char(v@, c, n as int) == last_index_of_char(v@, c, v@.len() as int),
        decreases n,
    {
        if v[n - 1] == c {
            return Some(n - 1);
        }
        n -= 1;
    }
    None
}

/// The lines of `s` for the line that starts at `start` and the scan that
/// stands at `i`.
pub open spec fn lines_from(s: Seq<char>, start: int, i: int) -> Seq<Seq<char>>
    decreases s.len() - i,
{
    if start < 0 || i < start || i >= s.len() {
        if 0 <= start < s.len() {
            seq![s.subrange(start, s.len() as int)]
        } else {
            Seq::empty()
        }
    } else if s[i] == '\n' {
        let end = if i > start && s[i - 1] == '\r' {
            i - 1
        } else {
            i
        };
        seq![s.subrange(start, end)] + lines_from(s, i + 1, i + 1)
    } else {
        lines_from(s, start, i + 1)
    }
}

/// The lines of `s`. A line ends at a line feed, or at a carriage return
/// that a line feed follows; neither belongs to the line. What follows the
/// last line feed is a line only where it is not empty.
pub open spec fn spec_lines(s: Seq<char>) -> Seq<Seq<char>> {
    lines_from(s, 0, 0)
}

/// The lines of `v`.
pub fn lines(v: &Vec<char>) -> (r: Vec<Vec<char>>)
    ensures
        views(r@) == spec_lines(v@),
{
    let mut out: Vec<Vec<char>> = Vec::new();
    let mut start: usize = 0;
    let mut i: usize = 0;
    assert(views(out@) =~= Seq::<Seq<char>>::empty());
    while i < v.len()
        invariant
            start <= i <= v.len(),
            views(out@) + lines_from(v@, start as int, i as int) == spec_lines(v@),
        decreases v.len() - i,
    {
        if v[i] == '\n' {
            let end: usize = if i > start && v[i - 1] == '\r' {
                i - 1
            } else {
                i
            };
            let line = slice(v, start, end);
            proof {
                lemma_views_push(out@, line);
                let rest = lines_from(v@, i as int + 1, i as int + 1);
                assert((views(out@) + seq![line@]) + rest =~= views(out@) + (seq![line@] + rest));
                assert(views(out@).push(line@) =~= views(out@) + seq![line@]);
            }
            out.push(line);
            i += 1;
            start = i;
        } else {
            i += 1;
        }
    }
    if start < v.len() {
        let line = slice(v, start, v.len());
        proof {
            lemma_views_push(out@, line);
            assert(views(out@).push(line@) =~= views(out@) + seq![line@]);
        }
        out.push(line);
    } else {
        assert(views(out@) + Seq::<Seq<char>>::empty() =~= views(out@));
    }
    out
}

} // verus!
