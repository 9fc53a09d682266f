//! Character sequences: white space, trimming, splitting into lines, fields and
//! words, and searching. Every executable function here works on a slice of
//! `char` and is specified over `Seq<char>`.
use vstd::prelude::*;
use vstd::std_specs::iter::IteratorSpec;

verus! {

/// The code points with the Unicode `White_Space` property.
pub open spec fn is_whitespace(c: char) -> bool {
    ||| c == ' '
    ||| ('\u{9}' <= c && c <= '\u{d}')
    ||| c == '\u{85}'
    ||| c == '\u{a0}'
    ||| c == '\u{1680}'
    ||| ('\u{2000}' <= c && c <= '\u{200a}')
    ||| c == '\u{2028}'
    ||| c == '\u{2029}'
    ||| c == '\u{202f}'
    ||| c == '\u{205f}'
    ||| c == '\u{3000}'
}

/// `a..b` is what remains of `s` once leading and trailing white space is cut.
pub open spec fn is_trim_of(s: Seq<char>, a: int, b: int) -> bool {
    &&& 0 <= a <= b <= s.len()
    &&& forall|i: int| 0 <= i < a ==> is_whitespace(#[trigger] s[i])
    &&& forall|i: int| b <= i < s.len() ==> is_whitespace(#[trigger] s[i])
    &&& a < b ==> !is_whitespace(s[a]) && !is_whitespace(s[b - 1])
}

/// `s` without its leading and trailing white space.
pub open spec fn trim(s: Seq<char>) -> Seq<char> {
    let (a, b) = choose|a: int, b: int| is_trim_of(s, a, b);
    s.subrange(a, b)
}

/// Only white space, or nothing at all.
pub open spec fn is_blank(s: Seq<char>) -> bool {
    forall|i: int| 0 <= i < s.len() ==> is_whitespace(#[trigger] s[i])
}

/// `i` is the position of the first `c` in `s`.
pub open spec fn is_first_index(s: Seq<char>, c: char, i: int) -> bool {
    &&& 0 <= i < s.len()
    &&& s[i] == c
    &&& forall|j: int| 0 <= j < i ==> #[trigger] s[j] != c
}

/// The position of the first `c` in `s`, if there is one.
pub open spec fn first_index(s: Seq<char>, c: char) -> Option<int> {
    let i = choose|i: int| is_first_index(s, c, i);
    if is_first_index(s, c, i) {
        Some(i)
    } else {
        None
    }
}

/// `i` is the position of the last `c` in `s`.
pub open spec fn is_last_index(s: Seq<char>, c: char, i: int) -> bool {
    &&& 0 <= i < s.len()
    &&& s[i] == c
    &&& forall|j: int| i < j < s.len() ==> #[trigger] s[j] != c
}

/// The position of the last `c` in `s`, if there is one.
pub open spec fn last_index(s: Seq<char>, c: char) -> Option<int> {
    let i = choose|i: int| is_last_index(s, c, i);
    if is_last_index(s, c, i) {
        Some(i)
    } else {
        None
    }
}

/// The pieces of `s` between occurrences of `sep`; always at least one piece.
pub open spec fn pieces(s: Seq<char>, sep: char) -> Seq<Seq<char>>
    decreases s.len(),
{
    if s.len() == 0 {
        seq![Seq::<char>::empty()]
    } else {
        let before = pieces(s.drop_last(), sep);
        if s.last() == sep {
            before.push(Seq::<char>::empty())
        } else {
            before.drop_last().push(before.last().push(s.last()))
        }
    }
}

/// A line without the carriage return that may end it.
pub open spec fn strip_cr(line: Seq<char>) -> Seq<char> {
    if line.len() > 0 && line.last() == '\r' {
        line.drop_last()
    } else {
        line
    }
}

/// The lines of a text. A line ends at a line feed or at a carriage return
/// followed by a line feed; the end of the last line may be missing.
pub open spec fn lines(s: Seq<char>) -> Seq<Seq<char>> {
    let p = pieces(s, '\n');
    let ended = p.drop_last().map_values(|l: Seq<char>| strip_cr(l));
    if p.last().len() == 0 {
        ended
    } else {
        ended.push(p.last())
    }
}

/// The maximal runs of `s` that hold no white space, in order.
pub open spec fn words(s: Seq<char>) -> Seq<Seq<char>>
    decreases s.len(),
{
    if s.len() == 0 {
        Seq::<Seq<char>>::empty()
    } else {
        let before = words(s.drop_last());
        if is_whitespace(s.last()) {
            before
        } else if s.len() >= 2 && !is_whitespace(s[s.len() - 2]) {
            before.drop_last().push(before.last().push(s.last()))
        } else {
            before.push(seq![s.last()])
        }
    }
}

/// The parts, with `sep` between each two of them.
pub open spec fn join(parts: Seq<Seq<char>>, sep: Seq<char>) -> Seq<char>
    decreases parts.len(),
{
    if parts.len() == 0 {
        Seq::<char>::empty()
    } else if parts.len() == 1 {
        parts[0]
    } else {
        join(parts.drop_last(), sep) + sep + parts.last()
    }
}

/// The words of `s` with one space between each two of them.
pub open spec fn collapse_whitespace(s: Seq<char>) -> Seq<char> {
    join(words(s), seq![' '])
}

/// The views of a vector of character vectors.
pub open spec fn views(v: Seq<Vec<char>>) -> Seq<Seq<char>> {
    v.map_values(|x: Vec<char>| x@)
}

/// `s` begins with `p`.
pub open spec fn starts_with(s: Seq<char>, p: Seq<char>) -> bool {
    p.len() <= s.len() && s.subrange(0, p.len() as int) == p
}

/// `s` ends with `p`.
pub open spec fn ends_with(s: Seq<char>, p: Seq<char>) -> bool {
    p.len() <= s.len() && s.subrange(s.len() - p.len(), s.len() as int) == p
}

/// `p` occurs in `s` at position `i`.
pub open spec fn occurs_at(s: Seq<char>, p: Seq<char>, i: int) -> bool {
    0 <= i && i + p.len() <= s.len() && s.subrange(i, i + p.len()) == p
}

/// `p` occurs somewhere in `s`.
pub open spec fn contains_text(s: Seq<char>, p: Seq<char>) -> bool {
    exists|i: int| occurs_at(s, p, i)
}

pub fn char_is_whitespace(c: char) -> (b: bool)
    ensures
        b == is_whitespace(c),
{
    c == ' ' || ('\u{9}' <= c && c <= '\u{d}') || c == '\u{85}' || c == '\u{a0}' || c == '\u{1680}'
        || ('\u{2000}' <= c && c <= '\u{200a}') || c == '\u{2028}' || c == '\u{2029}' || c
        == '\u{202f}' || c == '\u{205f}' || c == '\u{3000}'
}

/// The characters of a string.
pub fn chars_of(s: &str) -> (out: Vec<char>)
    ensures
        out@ == s@,
{
    broadcast use vstd::string::group_string_axioms;

    let mut out: Vec<char> = Vec::new();
    let mut it = s.chars();
    loop
        invariant
            out@ + it.remaining() == s@,
            it.decrease() is Some,
        ensures
            out@ == s@,
        decreases it.decrease()->0,
    {
        let ghost before = it.remaining();
        match it.next() {
            Some(c) => {
                out.push(c);
                assert(out@ + it.remaining() =~= s@) by {
                    assert(before =~= seq![c] + before.drop_first());
                }
            },
            None => {
                assert(out@ =~= s@);
                break ;
            },
        }
    }
    out
}

/// `String::push`: the string grows by the one character at its end.
#[verifier::external_body]
fn push_char(s: &mut String, c: char)
    ensures
        final(s)@ == old(s)@.push(c),
{
    s.push(c);
}

/// The string made of the given characters.
pub fn string_of(chars: &[char]) -> (out: String)
    ensures
        out@ == chars@,
{
    let mut out = String::new();
    let mut i: usize = 0;
    while i < chars.len()
        invariant
            i <= chars.len(),
            out@ == chars@.take(i as int),
        decreases chars.len() - i,
    {
        push_char(&mut out, chars[i]);
        i += 1;
        assert(chars@.take(i as int) =~= chars@.take(i - 1).push(chars@[i - 1]));
    }
    assert(chars@.take(i as int) =~= chars@);
    out
}

/// A copy of `s[a..b]`.
pub fn copy_range(s: &[char], a: usize, b: usize) -> (out: Vec<char>)
    requires
        a <= b <= s.len(),
    ensures
        out@ == s@.subrange(a as int, b as int),
{
    let mut out: Vec<char> = Vec::new();
    let mut i: usize = a;
    while i < b
        invariant
            a <= i <= b <= s.len(),
            out@ == s@.subrange(a as int, i as int),
        decreases b - i,
    {
        out.push(s[i]);
        i += 1;
        assert(s@.subrange(a as int, i as int) =~= s@.subrange(a as int, i - 1).push(s@[i - 1]));
    }
    out
}

/// Any two cuts of the same text give the same trimmed text.
pub proof fn lemma_trim_is(s: Seq<char>, a: int, b: int)
    requires
        is_trim_of(s, a, b),
    ensures
        trim(s) == s.subrange(a, b),
{
    let (x, y) = choose|x: int, y: int| is_trim_of(s, x, y);
    assert(is_trim_of(s, x, y));
    if a < b {
        assert(!is_whitespace(s[a]));
        assert(!is_whitespace(s[b - 1]));
        assert(x <= a);
        assert(y >= b);
        assert(x < y);
        assert(!is_whitespace(s[x]));
        assert(!is_whitespace(s[y - 1]));
        assert(x == a);
        assert(y == b);
    } else {
        if x < y {
            assert(!is_whitespace(s[x]));
            assert(false);
        }
        assert(s.subrange(a, b) =~= s.subrange(x, y));
    }
}

/// The bounds of `s` without its leading and trailing white space.
pub fn trim_bounds(s: &[char]) -> (r: (usize, usize))
    ensures
        is_trim_of(s@, r.0 as int, r.1 as int),
        trim(s@) == s@.subrange(r.0 as int, r.1 as int),
        r.0 == r.1 <==> is_blank(s@),
{
    let n = s.len();
    let mut a: usize = 0;
    while a < n && char_is_whitespace(s[a])
        invariant
            a <= n == s.len(),
            forall|i: int| 0 <= i < a ==> is_whitespace(#[trigger] s@[i]),
        decreases n - a,
    {
        a += 1;
    }
    let mut b: usize = n;
    while b > a && char_is_whitespace(s[b - 1])
        invariant
            a <= b <= n == s.len(),
            forall|i: int| b <= i < n ==> is_whitespace(#[trigger] s@[i]),
        decreases b,
    {
        b -= 1;
    }
    proof {
        lemma_trim_is(s@, a as int, b as int);
        if a < b {
            assert(!is_whitespace(s@[a as int]));
        }
    }
    (a, b)
}

/// `s` without its leading and trailing white space.
pub fn trim_chars(s: &[char]) -> (out: Vec<char>)
    ensures
        out@ == trim(s@),
{
    let (a, b) = trim_bounds(s);
    copy_range(s, a, b)
}

/// The position of the first `c` at or after `from`.
pub fn find_char_from(s: &[char], c: char, from: usize) -> (r: Option<usize>)
    requires
        from <= s.len(),
    ensures
        match r {
            Some(i) => from <= i && first_index(s@.skip(from as int), c) == Some(i - from),
            None => first_index(s@.skip(from as int), c) is None,
        },
{
    let ghost rest = s@.skip(from as int);
    let mut i: usize = from;
    while i < s.len()
        invariant
            from <= i <= s.len(),
            rest == s@.skip(from as int),
            forall|j: int| 0 <= j < i - from ==> #[trigger] rest[j] != c,
        decreases s.len() - i,
    {
        if s[i] == c {
            assert(is_first_index(rest, c, i - from));
            return Some(i);
        }
        i += 1;
    }
    None
}

/// The position of the first `c` in `s`.
pub fn find_char(s: &[char], c: char) -> (r: Option<usize>)
    ensures
        match r {
            Some(i) => first_index(s@, c) == Some(i as int),
            None => first_index(s@, c) is None,
        },
{
    assert(s@.skip(0) =~= s@);
    find_char_from(s, c, 0)
}

/// The position of the last `c` in `s`.
pub fn rfind_char(s: &[char], c: char) -> (r: Option<usize>)
    ensures
        match r {
            Some(i) => last_index(s@, c) == Some(i as int),
            None => last_index(s@, c) is None,
        },
{
    let mut i: usize = s.len();
    while i > 0
        invariant
            i <= s.len(),
            forall|j: int| i <= j < s.len() ==> #[trigger] s@[j] != c,
        decreases i,
    {
        i -= 1;
        if s[i] == c {
            assert(is_last_index(s@, c, i as int));
            return Some(i);
        }
    }
    None
}

/// Whether two character slices hold the same text.
pub fn chars_eq(a: &[char], b: &[char]) -> (r: bool)
    ensures
        r == (a@ == b@),
{
    if a.len() != b.len() {
        return false;
    }
    let mut i: usize = 0;
    while i < a.len()
        invariant
            i <= a.len() == b.len(),
            forall|j: int| 0 <= j < i ==> a@[j] == b@[j],
        decreases a.len() - i,
    {
        if a[i] != b[i] {
            return false;
        }
        i += 1;
    }
    assert(a@ =~= b@);
    true
}

/// Whether `p` occurs in `s` at position `i`.
pub fn occurs_at_index(s: &[char], p: &[char], i: usize) -> (r: bool)
    ensures
        r == occurs_at(s@, p@, i as int),
{
    if i > s.len() || p.len() > s.len() - i {
        return false;
    }
    let mut k: usize = 0;
    while k < p.len()
        invariant
            k <= p.len(),
            i + p.len() <= s.len(),
            forall|j: int| 0 <= j < k ==> s@[i + j] == p@[j],
        decreases p.len() - k,
    {
        if s[i + k] != p[k] {
            assert(s@.subrange(i as int, i + p.len())[k as int] != p@[k as int]);
            return false;
        }
        k += 1;
    }
    assert(s@.subrange(i as int, i + p.len()) =~= p@);
    true
}

/// Whether `s` begins with `p`.
pub fn has_prefix(s: &[char], p: &[char]) -> (r: bool)
    ensures
        r == starts_with(s@, p@),
{
    occurs_at_index(s, p, 0)
}

/// Whether `s` ends with `p`.
pub fn has_suffix(s: &[char], p: &[char]) -> (r: bool)
    ensures
        r == ends_with(s@, p@),
{
    if p.len() > s.len() {
        return false;
    }
    occurs_at_index(s, p, s.len() - p.len())
}

/// Whether `p` occurs somewhere in `s`.
pub fn has_text(s: &[char], p: &[char]) -> (r: bool)
    ensures
        r == contains_text(s@, p@),
{
    let mut i: usize = 0;
    while i < s.len()
        invariant
            i <= s.len(),
            forall|j: int| 0 <= j < i ==> !occurs_at(s@, p@, j),
        decreases s.len() - i,
    {
        if occurs_at_index(s, p, i) {
            return true;
        }
        i += 1;
    }
    occurs_at_index(s, p, i)
}

/// Appends `s` to `out`.
pub fn append_chars(out: &mut Vec<char>, s: &[char])
    ensures
        final(out)@ == old(out)@ + s@,
{
    let mut i: usize = 0;
    while i < s.len()
        invariant
            i <= s.len(),
            out@ == old(out)@ + s@.take(i as int),
        decreases s.len() - i,
    {
        out.push(s[i]);
        i += 1;
        assert(old(out)@ + s@.take(i as int) =~= (old(out)@ + s@.take(i - 1)).push(s@[i - 1]));
    }
    assert(s@.take(i as int) =~= s@);
}

/// The pieces of `s` between occurrences of `sep`.
pub fn split_pieces(s: &[char], sep: char) -> (out: Vec<Vec<char>>)
    ensures
        views(out@) == pieces(s@, sep),
        out@.len() >= 1,
{
    let mut done: Vec<Vec<char>> = Vec::new();
    let mut cur: Vec<char> = Vec::new();
    let mut i: usize = 0;
    assert(views(done@).push(cur@) =~= pieces(s@.take(0), sep));
    while i < s.len()
        invariant
            i <= s.len(),
            pieces(s@.take(i as int), sep) == views(done@).push(cur@),
        decreases s.len() - i,
    {
        let c = s[i];
        proof {
            assert(s@.take(i + 1).drop_last() =~= s@.take(i as int));
            assert(s@.take(i + 1).last() == c);
        }
        let ghost before = views(done@).push(cur@);
        if c == sep {
            let ghost old_done = done@;
            done.push(cur);
            cur = Vec::new();
            assert(views(done@) =~= before);
            assert(views(done@).push(cur@) =~= before.push(Seq::<char>::empty()));
        } else {
            cur.push(c);
            assert(views(done@).push(cur@) =~= before.drop_last().push(before.last().push(c)));
        }
        i += 1;
    }
    assert(s@.take(i as int) =~= s@);
    let ghost before = views(done@).push(cur@);
    done.push(cur);
    assert(views(done@) =~= before);
    done
}

/// The lines of a text.
pub fn split_lines(s: &[char]) -> (out: Vec<Vec<char>>)
    ensures
        views(out@) == lines(s@),
{
    let mut p = split_pieces(s, '\n');
    let ghost all = views(p@);
    let tail = p.pop().unwrap();
    assert(views(p@) =~= all.drop_last());
    assert(tail@ == all.last());
    let mut out: Vec<Vec<char>> = Vec::new();
    let mut k: usize = 0;
    let ghost ended = all.drop_last().map_values(|l: Seq<char>| strip_cr(l));
    while k < p.len()
        invariant
            k <= p.len(),
            views(p@) == all.drop_last(),
            ended == all.drop_last().map_values(|l: Seq<char>| strip_cr(l)),
            views(out@) == ended.take(k as int),
        decreases p.len() - k,
    {
        let line = &p[k];
        let n = line.len();
        let piece = if n > 0 && line[n - 1] == '\r' {
            copy_range(line.as_slice(), 0, n - 1)
        } else {
            copy_range(line.as_slice(), 0, n)
        };
        proof {
            assert(views(p@)[k as int] == line@);
            assert(line@.subrange(0, n as int) =~= line@);
            assert(line@.subrange(0, n - 1) =~= line@.drop_last());
            assert(piece@ == strip_cr(line@));
        }
        let ghost prev = views(out@);
        out.push(piece);
        k += 1;
        assert(views(out@) =~= prev.push(piece@));
        assert(ended.take(k as int) =~= ended.take(k - 1).push(ended[k - 1]));
    }
    assert(ended.take(k as int) =~= ended);
    if tail.len() > 0 {
        let ghost prev = views(out@);
        out.push(tail);
        assert(views(out@) =~= prev.push(all.last()));
    }
    out
}

/// The maximal runs of `s` that hold no white space.
pub fn split_words(s: &[char]) -> (out: Vec<Vec<char>>)
    ensures
        views(out@) == words(s@),
{
    let mut done: Vec<Vec<char>> = Vec::new();
    let mut cur: Vec<char> = Vec::new();
    let mut in_word = false;
    let mut i: usize = 0;
    assert(views(done@) =~= words(s@.take(0)));
    while i < s.len()
        invariant
            i <= s.len(),
            in_word == (i > 0 && !is_whitespace(s@[i - 1])),
            !in_word ==> cur@.len() == 0,
            words(s@.take(i as int)) == if in_word {
                views(done@).push(cur@)
            } else {
                views(done@)
            },
        decreases s.len() - i,
    {
        let c = s[i];
        proof {
            assert(s@.take(i + 1).drop_last() =~= s@.take(i as int));
            assert(s@.take(i + 1).last() == c);
            if i > 0 {
                assert(s@.take(i + 1)[i - 1] == s@[i - 1]);
            }
        }
        let ghost before = words(s@.take(i as int));
        if char_is_whitespace(c) {
            if in_word {
                done.push(cur);
                cur = Vec::new();
                assert(views(done@) =~= before);
            }
            in_word = false;
        } else {
            cur.push(c);
            if in_word {
                assert(views(done@).push(cur@) =~= before.drop_last().push(before.last().push(c)));
            } else {
                assert(cur@ =~= seq![c]);
            }
            in_word = true;
        }
        i += 1;
    }
    assert(s@.take(i as int) =~= s@);
    if in_word {
        let ghost before = views(done@).push(cur@);
        done.push(cur);
        assert(views(done@) =~= before);
    }
    done
}

/// The parts from position `from` on, with `sep` between each two of them.
pub fn join_from(parts: &Vec<Vec<char>>, from: usize, sep: &[char]) -> (out: Vec<char>)
    requires
        from <= parts.len(),
    ensures
        out@ == join(views(parts@).skip(from as int), sep@),
{
    let ghost rest = views(parts@).skip(from as int);
    let mut out: Vec<char> = Vec::new();
    let mut k: usize = from;
    while k < parts.len()
        invariant
            from <= k <= parts.len(),
            rest == views(parts@).skip(from as int),
            out@ == join(rest.take(k - from), sep@),
        decreases parts.len() - k,
    {
        proof {
            assert(rest.take(k - from + 1).drop_last() =~= rest.take(k - from));
            assert(rest.take(k - from + 1).last() == parts@[k as int]@);
        }
        if k > from {
            append_chars(&mut out, sep);
        }
        append_chars(&mut out, parts[k].as_slice());
        proof {
            if k == from {
                assert(out@ =~= parts@[k as int]@);
            }
        }
        k += 1;
    }
    assert(rest.take(k - from) =~= rest);
    out
}

/// The words of `s` with one space between each two of them.
pub fn collapse_chars(s: &[char]) -> (out: Vec<char>)
    ensures
        out@ == collapse_whitespace(s@),
{
    let w = split_words(s);
    let sep: [char; 1] = [' '];
    assert(sep@ =~= seq![' ']);
    assert(views(w@).skip(0) =~= views(w@));
    join_from(&w, 0, sep.as_slice())
}


} // verus!
