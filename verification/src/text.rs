//! Character-level text helpers shared by the parsers: whitespace
//! collapsing, truncation with an ellipsis, prefix/suffix tests and the
//! conversions between `&str`/`String` and vectors of characters.

use vstd::prelude::*;

verus! {

/// Characters with the Unicode `White_Space` property, which is what
/// `char::is_whitespace` tests.
pub open spec fn is_ws(c: char) -> bool {
    let u = c as u32;
    ||| 0x09 <= u <= 0x0d
    ||| u == 0x20
    ||| u == 0x85
    ||| u == 0xa0
    ||| u == 0x1680
    ||| 0x2000 <= u <= 0x200a
    ||| u == 0x2028
    ||| u == 0x2029
    ||| u == 0x202f
    ||| u == 0x205f
    ||| u == 0x3000
}

/// Whether a character has the Unicode `White_Space` property, as
/// `char::is_whitespace` decides.
pub fn char_is_whitespace(c: char) -> (b: bool)
    ensures
        b == is_ws(c),
{
    let u = c as u32;
    (0x09 <= u && u <= 0x0d) || u == 0x20 || u == 0x85 || u == 0xa0 || u == 0x1680 || (0x2000 <= u && u <= 0x200a)
        || u == 0x2028 || u == 0x2029 || u == 0x202f || u == 0x205f || u == 0x3000
}

/// The characters of a string, in order.
pub(crate) fn chars_of(s: &str) -> (v: Vec<char>)
    ensures
        v@ == s@,
{
    broadcast use vstd::string::axiom_spec_iter;

    let mut v: Vec<char> = Vec::new();
    for c in it: s.chars()
        invariant
            it.seq() == s@,
            v@ == it.seq().take(it.index() as int),
    {
        v.push(c);
    }
    v
}

/// Collects characters into a `String` (`FromIterator<char>`): the string
/// holds exactly those characters.
#[verifier::external_body]
pub(crate) fn string_of(v: &Vec<char>) -> (s: String)
    ensures
        s@ == v@,
{
    v.iter().collect()
}

/// The words of `s` as `str::split_whitespace` yields them: the maximal runs
/// of characters that are not whitespace, in order.
pub open spec fn words(s: Seq<char>) -> Seq<Seq<char>>
    decreases s.len(),
{
    if s.len() == 0 {
        seq![]
    } else {
        let w = words(s.drop_last());
        let c = s.last();
        if is_ws(c) {
            w
        } else if s.len() >= 2 && !is_ws(s[s.len() - 2]) {
            w.update(w.len() - 1, w.last().push(c))
        } else {
            w.push(seq![c])
        }
    }
}

/// The words joined by single spaces.
pub open spec fn join_words(w: Seq<Seq<char>>) -> Seq<char>
    decreases w.len(),
{
    if w.len() == 0 {
        seq![]
    } else if w.len() == 1 {
        w[0]
    } else {
        join_words(w.drop_last()) + seq![' '] + w.last()
    }
}

/// What `clean_text` computes: the words of `s` joined by single spaces,
/// so runs of whitespace collapse to one space and both ends are trimmed.
pub open spec fn clean(s: Seq<char>) -> Seq<char> {
    join_words(words(s))
}

proof fn lemma_words_nonempty(s: Seq<char>)
    ensures
        forall|k: int| 0 <= k < words(s).len() ==> #[trigger] words(s)[k].len() > 0,
        s.len() > 0 && !is_ws(s.last()) ==> words(s).len() > 0,
    decreases s.len(),
{
    if s.len() > 0 {
        let p = s.drop_last();
        lemma_words_nonempty(p);
        let w = words(p);
        let c = s.last();
        if is_ws(c) {
        } else if s.len() >= 2 && !is_ws(s[s.len() - 2]) {
            assert(p.last() == s[s.len() - 2]);
            assert(w.len() > 0);
            let w2 = w.update(w.len() - 1, w.last().push(c));
            assert forall|k: int| 0 <= k < w2.len() implies #[trigger] w2[k].len() > 0 by {
                if k < w.len() - 1 {
                    assert(w2[k] == w[k]);
                }
            }
        } else {
            let w2 = w.push(seq![c]);
            assert forall|k: int| 0 <= k < w2.len() implies #[trigger] w2[k].len() > 0 by {
                if k < w.len() {
                    assert(w2[k] == w[k]);
                }
            }
        }
    }
}

/// How the words change when one character is appended.
proof fn lemma_words_snoc(p: Seq<char>, c: char)
    ensures
        words(p.push(c)) == if is_ws(c) {
            words(p)
        } else if p.len() >= 1 && !is_ws(p.last()) {
            words(p).update(words(p).len() - 1, words(p).last().push(c))
        } else {
            words(p).push(seq![c])
        },
{
    let s = p.push(c);
    assert(s.drop_last() =~= p);
    assert(s.last() == c);
    if p.len() >= 1 {
        assert(s[s.len() - 2] == p.last());
    }
}

proof fn lemma_join_empty(w: Seq<Seq<char>>)
    requires
        forall|k: int| 0 <= k < w.len() ==> #[trigger] w[k].len() > 0,
    ensures
        (join_words(w).len() == 0) == (w.len() == 0),
    decreases w.len(),
{
    if w.len() > 1 {
        lemma_join_empty(w.drop_last());
    }
}

proof fn lemma_join_extend_last(w: Seq<Seq<char>>, c: char)
    requires
        w.len() > 0,
    ensures
        join_words(w.update(w.len() - 1, w.last().push(c))) == join_words(w).push(c),
{
    let w2 = w.update(w.len() - 1, w.last().push(c));
    if w.len() == 1 {
        assert(w2[0] == w[0].push(c));
    } else {
        assert(w2.drop_last() =~= w.drop_last());
        assert(join_words(w2) == join_words(w.drop_last()) + seq![' '] + w.last().push(c));
        assert(join_words(w2) =~= join_words(w).push(c));
    }
}

proof fn lemma_join_push(w: Seq<Seq<char>>, c: char)
    ensures
        join_words(w.push(seq![c])) == if w.len() == 0 {
            seq![c]
        } else {
            join_words(w).push(' ').push(c)
        },
{
    let w2 = w.push(seq![c]);
    assert(w2.drop_last() =~= w);
    if w.len() > 0 {
        assert(join_words(w2) =~= join_words(w).push(' ').push(c));
    }
}

/// Collapses every run of whitespace to a single space and trims both ends.
pub fn clean_text(s: &str) -> (r: String)
    ensures
        r@ == clean(s@),
{
    let v = chars_of(s);
    let out = clean_chars(&v);
    string_of(&out)
}

/// `clean_text` on a vector of characters.
pub fn clean_chars(v: &Vec<char>) -> (out: Vec<char>)
    ensures
        out@ == clean(v@),
{
    let mut out: Vec<char> = Vec::new();
    let mut prev_ws = true;
    let mut i: usize = 0;
    while i < v.len()
        invariant
            i <= v.len(),
            out@ == join_words(words(v@.take(i as int))),
            prev_ws == (i == 0 || is_ws(v@[i - 1])),
        decreases v.len() - i,
    {
        let c = v[i];
        let ghost pre = v@.take(i as int);
        proof {
            assert(v@.take(i + 1) =~= pre.push(c));
            lemma_words_snoc(pre, c);
            lemma_words_nonempty(pre);
            lemma_join_empty(words(pre));
            if i > 0 {
                assert(pre.last() == v@[i - 1]);
            }
        }
        let ws = char_is_whitespace(c);
        if ws {
        } else if !prev_ws {
            proof {
                lemma_join_extend_last(words(pre), c);
            }
            out.push(c);
        } else {
            proof {
                lemma_join_push(words(pre), c);
            }
            if out.len() > 0 {
                out.push(' ');
            }
            out.push(c);
        }
        prev_ws = ws;
        i = i + 1;
    }
    proof {
        assert(v@.take(v.len() as int) =~= v@);
    }
    out
}

/// What `truncate_chars` computes: `s` itself when it has at most `n`
/// characters, else its first `n - 1` characters followed by an ellipsis
/// (nothing at all when `n` is 0, so the result never exceeds `n`).
pub open spec fn truncated(s: Seq<char>, n: nat) -> Seq<char> {
    if s.len() <= n {
        s
    } else if n == 0 {
        seq![]
    } else {
        s.take(n - 1).push('…')
    }
}

/// Shortens `s` to at most `n` characters, marking a cut with `…` (when
/// there is room for it).
pub fn truncate_chars(s: &str, n: usize) -> (r: String)
    ensures
        r@ == truncated(s@, n as nat),
{
    let v = chars_of(s);
    let out = truncate_vec(&v, n);
    string_of(&out)
}

/// `truncate_chars` on a vector of characters.
pub fn truncate_vec(v: &Vec<char>, n: usize) -> (out: Vec<char>)
    ensures
        out@ == truncated(v@, n as nat),
{
    if v.len() <= n {
        return v.clone();
    }
    if n == 0 {
        return Vec::new();
    }
    let keep: usize = n - 1;
    let mut out: Vec<char> = Vec::new();
    let mut i: usize = 0;
    while i < keep
        invariant
            keep < v.len(),
            i <= keep,
            out@ == v@.take(i as int),
        decreases keep - i,
    {
        out.push(v[i]);
        proof {
            assert(v@.take(i + 1) =~= v@.take(i as int).push(v@[i as int]));
        }
        i = i + 1;
    }
    out.push('…');
    out
}

/// `t` is a prefix of `s`.
pub open spec fn has_prefix(s: Seq<char>, t: Seq<char>) -> bool {
    t.len() <= s.len() && s.take(t.len() as int) == t
}

/// `t` is a suffix of `s`.
pub open spec fn has_suffix(s: Seq<char>, t: Seq<char>) -> bool {
    t.len() <= s.len() && s.skip(s.len() - t.len()) == t
}

/// `t` occurs in `s` at position `i`.
pub open spec fn occurs_at(s: Seq<char>, t: Seq<char>, i: int) -> bool {
    0 <= i && i + t.len() <= s.len() && s.subrange(i, i + t.len()) == t
}

/// `t` occurs somewhere in `s`.
pub open spec fn has_infix(s: Seq<char>, t: Seq<char>) -> bool {
    exists|i: int| occurs_at(s, t, i)
}

/// The first position at which `t` occurs in `s`, if any.
#[verifier::opaque]
pub open spec fn first_occurrence(s: Seq<char>, t: Seq<char>) -> Option<int> {
    if has_infix(s, t) {
        Some(choose|i: int| occurs_at(s, t, i) && forall|j: int| 0 <= j < i ==> !occurs_at(s, t, j))
    } else {
        None
    }
}

/// Whether `t` occurs in `s` at position `i` (exec).
pub fn occurs_at_exec(s: &Vec<char>, t: &Vec<char>, i: usize) -> (b: bool)
    ensures
        b == occurs_at(s@, t@, i as int),
{
    if i > s.len() || t.len() > s.len() - i {
        return false;
    }
    let mut k: usize = 0;
    while k < t.len()
        invariant
            i + t.len() <= s.len(),
            k <= t.len(),
            forall|j: int| 0 <= j < k ==> s@[i + j] == t@[j],
        decreases t.len() - k,
    {
        if s[i + k] != t[k] {
            proof {
                assert(s@.subrange(i as int, i + t.len())[k as int] != t@[k as int]);
            }
            return false;
        }
        k = k + 1;
    }
    proof {
        assert(s@.subrange(i as int, i + t.len()) =~= t@);
    }
    true
}

/// `str::starts_with` for a string pattern.
pub fn starts_with(s: &str, t: &str) -> (b: bool)
    ensures
        b == has_prefix(s@, t@),
{
    let sv = chars_of(s);
    let tv = chars_of(t);
    let b = occurs_at_exec(&sv, &tv, 0);
    proof {
        if b {
            assert(sv@.take(tv@.len() as int) =~= sv@.subrange(0, tv@.len() as int));
        }
        if has_prefix(s@, t@) {
            assert(sv@.take(tv@.len() as int) =~= sv@.subrange(0, tv@.len() as int));
        }
    }
    b
}

/// `str::ends_with` for a string pattern.
pub fn ends_with(s: &str, t: &str) -> (b: bool)
    ensures
        b == has_suffix(s@, t@),
{
    let sv = chars_of(s);
    let tv = chars_of(t);
    if tv.len() > sv.len() {
        return false;
    }
    let b = occurs_at_exec(&sv, &tv, sv.len() - tv.len());
    proof {
        assert(sv@.skip(sv@.len() - tv@.len()) =~= sv@.subrange(
            sv@.len() - tv@.len(),
            sv@.len() as int,
        ));
    }
    b
}

/// The first position of `t` in `s` (exec), with the position characterised
/// exactly.
pub fn find_vec(s: &Vec<char>, t: &Vec<char>) -> (r: Option<usize>)
    ensures
        r matches Some(i) ==> occurs_at(s@, t@, i as int) && forall|j: int|
            0 <= j < i ==> !occurs_at(s@, t@, j),
        r is None ==> !has_infix(s@, t@),
        r matches Some(i) ==> first_occurrence(s@, t@) == Some(i as int),
        r is None ==> first_occurrence(s@, t@) is None,
{
    reveal(first_occurrence);
    if t.len() > s.len() {
        proof {
            assert forall|j: int| !occurs_at(s@, t@, j) by {}
        }
        return None;
    }
    let last = s.len() - t.len();
    let mut i: usize = 0;
    loop
        invariant
            t.len() <= s.len(),
            last == s.len() - t.len(),
            i <= last,
            forall|j: int| 0 <= j < i ==> !occurs_at(s@, t@, j),
        decreases last - i,
    {
        if occurs_at_exec(s, t, i) {
            proof {
                reveal(first_occurrence);
                let k = choose|k: int| occurs_at(s@, t@, k) && forall|j: int|
                    0 <= j < k ==> !occurs_at(s@, t@, j);
                assert(k == i);
            }
            return Some(i);
        }
        if i == last {
            proof {
                assert forall|j: int| !occurs_at(s@, t@, j) by {
                    if 0 <= j && j + t@.len() <= s@.len() {
                        assert(j <= i);
                    }
                }
                reveal(first_occurrence);
            }
            return None;
        }
        i = i + 1;
    }
}

/// The first position of `t` in `s`.
pub fn find_first(s: &Vec<char>, t: &Vec<char>) -> (r: Option<usize>)
    ensures
        r matches Some(i) ==> first_occurrence(s@, t@) == Some(i as int),
        r is None ==> first_occurrence(s@, t@) is None,
        r matches Some(i) ==> i + t@.len() <= s@.len() && occurs_at(s@, t@, i as int),
{
    find_vec(s, t)
}

/// `str::contains` for a string pattern.
pub fn contains(s: &str, t: &str) -> (b: bool)
    ensures
        b == has_infix(s@, t@),
{
    let sv = chars_of(s);
    let tv = chars_of(t);
    find_vec(&sv, &tv).is_some()
}

/// ASCII lower-casing of one character, as `char::to_ascii_lowercase` does.
pub open spec fn ascii_lower(c: char) -> char {
    if 'A' <= c <= 'Z' {
        ((c as u32) + 32) as char
    } else {
        c
    }
}

/// `str::to_ascii_lowercase`.
pub open spec fn ascii_lower_seq(s: Seq<char>) -> Seq<char> {
    s.map_values(|c: char| ascii_lower(c))
}

/// ASCII lower-casing of a string.
pub fn to_ascii_lowercase(s: &str) -> (r: Vec<char>)
    ensures
        r@ == ascii_lower_seq(s@),
{
    let v = chars_of(s);
    let mut out: Vec<char> = Vec::new();
    let mut i: usize = 0;
    while i < v.len()
        invariant
            i <= v.len(),
            out@ == ascii_lower_seq(v@.take(i as int)),
        decreases v.len() - i,
    {
        let c = v[i];
        let l = if 'A' <= c && c <= 'Z' {
            ((c as u8) + 32) as char
        } else {
            c
        };
        out.push(l);
        proof {
            assert(ascii_lower_seq(v@.take(i + 1)) =~= ascii_lower_seq(v@.take(i as int)).push(
                ascii_lower(c),
            ));
        }
        i = i + 1;
    }
    proof {
        assert(v@.take(v.len() as int) =~= v@);
    }
    out
}

/// Equality of two character vectors.
pub fn vec_eq(a: &Vec<char>, b: &Vec<char>) -> (r: bool)
    ensures
        r == (a@ == b@),
{
    if a.len() != b.len() {
        return false;
    }
    let mut i: usize = 0;
    while i < a.len()
        invariant
            a.len() == b.len(),
            i <= a.len(),
            forall|j: int| 0 <= j < i ==> a@[j] == b@[j],
        decreases a.len() - i,
    {
        if a[i] != b[i] {
            return false;
        }
        i = i + 1;
    }
    proof {
        assert(a@ =~= b@);
    }
    true
}

/// Equality of two strings by content.
pub fn str_eq(a: &str, b: &str) -> (r: bool)
    ensures
        r == (a@ == b@),
{
    let av = chars_of(a);
    let bv = chars_of(b);
    vec_eq(&av, &bv)
}

/// The number of bytes of the UTF-8 encoding of one character.
pub open spec fn utf8_width(c: char) -> nat {
    let u = c as u32;
    if u < 0x80 {
        1
    } else if u < 0x800 {
        2
    } else if u < 0x10000 {
        3
    } else {
        4
    }
}

/// The length of the UTF-8 encoding of `s` in bytes, which is what
/// `str::len` returns.
pub open spec fn utf8_len(s: Seq<char>) -> nat
    decreases s.len(),
{
    if s.len() == 0 {
        0
    } else {
        utf8_len(s.drop_last()) + utf8_width(s.last())
    }
}

/// Whether the UTF-8 encoding of `s` is longer than `cap` bytes.
pub fn utf8_len_exceeds(s: &str, cap: usize) -> (b: bool)
    ensures
        b == (utf8_len(s@) > cap),
{
    let v = chars_of(s);
    let mut total: usize = 0;
    let mut i: usize = 0;
    while i < v.len()
        invariant
            i <= v@.len(),
            total == utf8_len(v@.take(i as int)),
            total <= cap,
            v@ == s@,
        decreases v@.len() - i,
    {
        let c = v[i];
        let u = c as u32;
        let w: usize = if u < 0x80 {
            1
        } else if u < 0x800 {
            2
        } else if u < 0x10000 {
            3
        } else {
            4
        };
        proof {
            assert(v@.take(i + 1).drop_last() =~= v@.take(i as int));
            assert(v@.take(i + 1).last() == c);
        }
        assert(utf8_width(c) == w);
        assert(utf8_len(v@.take(i + 1)) == total + w);
        if w > cap - total {
            proof {
                lemma_utf8_len_prefix(v@, i + 1);
            }
            return true;
        }
        total = total + w;
        i = i + 1;
    }
    proof {
        assert(v@.take(v@.len() as int) =~= v@);
    }
    false
}

/// A prefix is never longer in UTF-8 than the whole.
proof fn lemma_utf8_len_prefix(s: Seq<char>, k: int)
    requires
        0 <= k <= s.len(),
    ensures
        utf8_len(s.take(k)) <= utf8_len(s),
    decreases s.len() - k,
{
    if k < s.len() {
        lemma_utf8_len_prefix(s, k + 1);
        assert(s.take(k + 1).drop_last() =~= s.take(k));
    } else {
        assert(s.take(k) =~= s);
    }
}

/// `str::strip_prefix`: the rest of `s` after the prefix `p`.
pub open spec fn strip_prefix_spec(s: Seq<char>, p: Seq<char>) -> Option<Seq<char>> {
    if has_prefix(s, p) {
        Some(s.skip(p.len() as int))
    } else {
        None
    }
}

/// `str::strip_prefix` for a string pattern.
pub fn strip_prefix(s: &str, p: &str) -> (r: Option<String>)
    ensures
        match strip_prefix_spec(s@, p@) {
            Some(t) => r matches Some(x) && x@ == t,
            None => r is None,
        },
{
    let sv = chars_of(s);
    let pv = chars_of(p);
    if !starts_with(s, p) {
        return None;
    }
    let rest = skip_vec(&sv, pv.len());
    Some(string_of(&rest))
}

/// The characters of `v` from position `k` on.
pub fn skip_vec(v: &Vec<char>, k: usize) -> (r: Vec<char>)
    requires
        k <= v@.len(),
    ensures
        r@ == v@.skip(k as int),
{
    let mut out: Vec<char> = Vec::new();
    let mut i: usize = k;
    while i < v.len()
        invariant
            k <= i <= v@.len(),
            out@ == v@.subrange(k as int, i as int),
        decreases v@.len() - i,
    {
        out.push(v[i]);
        proof {
            assert(v@.subrange(k as int, i + 1) =~= v@.subrange(k as int, i as int).push(v@[i as int]));
        }
        i = i + 1;
    }
    proof {
        assert(v@.subrange(k as int, v@.len() as int) =~= v@.skip(k as int));
    }
    out
}

/// `str::trim_start_matches` for a non-empty string pattern: removes the
/// pattern from the front as often as it occurs there.
pub open spec fn trim_start_matches_spec(s: Seq<char>, p: Seq<char>) -> Seq<char>
    decreases s.len(),
{
    if p.len() > 0 && has_prefix(s, p) {
        trim_start_matches_spec(s.skip(p.len() as int), p)
    } else {
        s
    }
}

/// `str::trim_start_matches` for a non-empty string pattern.
pub fn trim_start_matches(s: &str, p: &str) -> (r: String)
    requires
        p@.len() > 0,
    ensures
        r@ == trim_start_matches_spec(s@, p@),
{
    let sv = chars_of(s);
    let pv = chars_of(p);
    let mut i: usize = 0;
    proof {
        assert(sv@.skip(0) =~= sv@);
    }
    while i <= sv.len() && occurs_at_exec(&sv, &pv, i)
        invariant
            i <= sv@.len(),
            pv@.len() > 0,
            trim_start_matches_spec(sv@, pv@) == trim_start_matches_spec(sv@.skip(i as int), pv@),
        decreases sv@.len() - i,
    {
        proof {
            let rest = sv@.skip(i as int);
            assert(rest.take(pv@.len() as int) =~= sv@.subrange(i as int, i + pv@.len()));
            assert(rest.skip(pv@.len() as int) =~= sv@.skip(i + pv@.len()));
        }
        i = i + pv.len();
    }
    proof {
        let rest = sv@.skip(i as int);
        if has_prefix(rest, pv@) {
            assert(rest.take(pv@.len() as int) =~= sv@.subrange(i as int, i + pv@.len()));
        }
    }
    let rest = skip_vec(&sv, i);
    string_of(&rest)
}

/// `str::replace` for a non-empty pattern: every occurrence of `from`,
/// found from left to right without overlap, is replaced by `to`.
pub open spec fn replace_spec(s: Seq<char>, from: Seq<char>, to: Seq<char>) -> Seq<char>
    decreases s.len(),
{
    if from.len() == 0 {
        s
    } else {
        match first_occurrence(s, from) {
            None => s,
            Some(i) => if 0 <= i && i + from.len() <= s.len() {
                s.take(i) + to + replace_spec(s.skip(i + from.len()), from, to)
            } else {
                s
            },
        }
    }
}

/// Appends `v[a..b]` to `out`.
pub fn extend_range(out: &mut Vec<char>, v: &Vec<char>, a: usize, b: usize)
    requires
        a <= b <= v@.len(),
    ensures
        final(out)@ == old(out)@ + v@.subrange(a as int, b as int),
{
    let ghost before = out@;
    let mut k: usize = a;
    while k < b
        invariant
            a <= k <= b,
            b <= v@.len(),
            out@ == before + v@.subrange(a as int, k as int),
        decreases b - k,
    {
        out.push(v[k]);
        proof {
            assert(v@.subrange(a as int, k + 1) =~= v@.subrange(a as int, k as int).push(v@[k as int]));
        }
        k = k + 1;
    }
}

proof fn lemma_replace_step(rest: Seq<char>, from: Seq<char>, to: Seq<char>, i: int)
    requires
        from.len() > 0,
        first_occurrence(rest, from) == Some(i),
        occurs_at(rest, from, i),
    ensures
        replace_spec(rest, from, to) == rest.take(i) + to + replace_spec(rest.skip(i + from.len()), from, to),
{
}

proof fn lemma_min_occurrence(s: Seq<char>, t: Seq<char>, i: int)
    requires
        occurs_at(s, t, i),
    ensures
        exists|k: int| occurs_at(s, t, k) && forall|m: int| 0 <= m < k ==> !occurs_at(s, t, m),
    decreases i,
{
    if exists|m: int| 0 <= m < i && occurs_at(s, t, m) {
        let m = choose|m: int| 0 <= m < i && occurs_at(s, t, m);
        lemma_min_occurrence(s, t, m);
    }
}

/// The first occurrence is the one at `i` when `t` occurs there and at no
/// earlier position.
proof fn lemma_first_occurrence_at(s: Seq<char>, t: Seq<char>, i: int)
    requires
        occurs_at(s, t, i),
        forall|m: int| 0 <= m < i ==> !occurs_at(s, t, m),
    ensures
        first_occurrence(s, t) == Some(i),
{
    reveal(first_occurrence);
    let c = choose|k: int| occurs_at(s, t, k) && forall|m: int| 0 <= m < k ==> !occurs_at(s, t, m);
    assert(occurs_at(s, t, c));
    if c < i {
        assert(!occurs_at(s, t, c));
    }
    if c > i {
        assert(!occurs_at(s, t, i));
    }
}

/// Replacing in `a + b`, where no occurrence of `from` starts inside `a`,
/// leaves `a` as it is and replaces in `b`.
pub proof fn lemma_replace_skips_prefix(a: Seq<char>, b: Seq<char>, from: Seq<char>, to: Seq<char>)
    requires
        from.len() > 0,
        forall|i: int| 0 <= i < a.len() ==> !occurs_at(a + b, from, i),
    ensures
        replace_spec(a + b, from, to) == a + replace_spec(b, from, to),
{
    let s = a + b;
    assert forall|i: int| i >= a.len() implies (occurs_at(s, from, i) <==> occurs_at(b, from, i - a.len())) by {
        if i + from.len() <= s.len() {
            assert(s.subrange(i, i + from.len()) =~= b.subrange(i - a.len(), i - a.len() + from.len()));
        }
    }
    if has_infix(b, from) {
        let j0 = choose|j: int| occurs_at(b, from, j);
        lemma_min_occurrence(b, from, j0);
        let j = choose|k: int| occurs_at(b, from, k) && forall|m: int| 0 <= m < k ==> !occurs_at(b, from, m);
        lemma_first_occurrence_at(b, from, j);
        let i = a.len() + j;
        assert(occurs_at(s, from, i));
        assert forall|m: int| 0 <= m < i implies !occurs_at(s, from, m) by {
            if m >= a.len() {
                assert(!occurs_at(b, from, m - a.len()));
            }
        }
        lemma_first_occurrence_at(s, from, i);
        assert(s.take(i) =~= a + b.take(j));
        assert(s.skip(i + from.len()) =~= b.skip(j + from.len()));
        let rest = replace_spec(b.skip(j + from.len()), from, to);
        assert(a + (b.take(j) + to + rest) =~= a + b.take(j) + to + rest);
    } else {
        reveal(first_occurrence);
        assert forall|i: int| !occurs_at(s, from, i) by {
            if occurs_at(s, from, i) && i >= a.len() {
                assert(occurs_at(b, from, i - a.len()));
            }
        }
        assert(!has_infix(s, from));
    }
}

/// Replacing in a text that starts with `from` replaces that occurrence
/// first, then the rest.
pub proof fn lemma_replace_at_start(b: Seq<char>, from: Seq<char>, to: Seq<char>)
    requires
        from.len() > 0,
        occurs_at(b, from, 0),
    ensures
        replace_spec(b, from, to) == to + replace_spec(b.skip(from.len() as int), from, to),
{
    lemma_first_occurrence_at(b, from, 0);
    assert(b.take(0) + to =~= to);
}

/// Replacing in an empty text gives an empty text.
pub proof fn lemma_replace_empty(from: Seq<char>, to: Seq<char>)
    requires
        from.len() > 0,
    ensures
        replace_spec(seq![], from, to) == Seq::<char>::empty(),
{
    reveal(first_occurrence);
    assert forall|i: int| !occurs_at(seq![], from, i) by {}
}

/// `str::replace` for a non-empty pattern.
pub fn replace_all(s: &Vec<char>, from: &str, to: &str) -> (r: Vec<char>)
    requires
        from@.len() > 0,
    ensures
        r@ == replace_spec(s@, from@, to@),
{
    let fv = chars_of(from);
    let tv = chars_of(to);
    let mut out: Vec<char> = Vec::new();
    let mut rest = s.clone();
    proof {
        assert(rest@ == s@);
        assert(out@ + replace_spec(rest@, from@, to@) =~= replace_spec(rest@, from@, to@));
    }
    loop
        invariant
            fv@ == from@,
            tv@ == to@,
            fv@.len() > 0,
            replace_spec(s@, from@, to@) == out@ + replace_spec(rest@, from@, to@),
        decreases rest@.len(),
    {
        let found = find_first(&rest, &fv);
        match found {
            None => {
                let ghost before = out@;
                extend_range(&mut out, &rest, 0, rest.len());
                proof {
                    assert(rest@.subrange(0, rest@.len() as int) =~= rest@);
                }
                return out;
            },
            Some(i) => {
                let ghost before = out@;
                let ghost r0 = rest@;
                proof {
                    lemma_replace_step(r0, from@, to@, i as int);
                }
                let rl = rest.len();
                assert(i + fv@.len() <= rl);
                let end = i + fv.len();
                extend_range(&mut out, &rest, 0, i);
                extend_range(&mut out, &tv, 0, tv.len());
                let next = skip_vec(&rest, end);
                proof {
                    assert(r0.subrange(0, i as int) =~= r0.take(i as int));
                    assert(tv@.subrange(0, tv@.len() as int) =~= to@);
                    let tail = replace_spec(next@, from@, to@);
                    assert(before + (r0.take(i as int) + to@ + tail) =~= out@ + tail);
                }
                rest = next;
            },
        }
    }
}

/// The lines of `s` as `str::lines` yields them: split after each `\n`,
/// with the `\n` and a `\r` just before it removed; a last line without
/// `\n` is kept as it is, and an empty remainder adds no line.
pub open spec fn lines_spec(s: Seq<char>) -> Seq<Seq<char>>
    decreases s.len(),
{
    if s.len() == 0 {
        seq![]
    } else {
        match first_occurrence(s, seq!['\n']) {
            None => seq![s],
            Some(i) => if 0 <= i < s.len() {
                let line = s.take(i);
                let line = if line.len() > 0 && line.last() == '\r' {
                    line.drop_last()
                } else {
                    line
                };
                seq![line] + lines_spec(s.skip(i + 1))
            } else {
                seq![s]
            },
        }
    }
}

/// `str::lines`.
pub fn lines(s: &Vec<char>) -> (r: Vec<Vec<char>>)
    ensures
        r@.map_values(|l: Vec<char>| l@) == lines_spec(s@),
{
    let mut out: Vec<Vec<char>> = Vec::new();
    let mut rest = s.clone();
    let nl = vec!['\n'];
    proof {
        assert(rest@ == s@);
        assert(nl@ =~= seq!['\n']);
    }
    loop
        invariant
            nl@ == seq!['\n'],
            lines_spec(s@) == out@.map_values(|l: Vec<char>| l@) + lines_spec(rest@),
        decreases rest@.len(),
    {
        if rest.len() == 0 {
            proof {
                assert(out@.map_values(|l: Vec<char>| l@) + seq![] =~= out@.map_values(|l: Vec<char>| l@));
            }
            return out;
        }
        match find_first(&rest, &nl) {
            None => {
                let ghost before = out@.map_values(|l: Vec<char>| l@);
                let last = rest.clone();
                out.push(last);
                proof {
                    assert(out@.map_values(|l: Vec<char>| l@) =~= before.push(rest@));
                    assert(before + seq![rest@] =~= before.push(rest@));
                }
                return out;
            },
            Some(i) => {
                let mut line = take_vec(&rest, i);
                if line.len() > 0 && line[line.len() - 1] == '\r' {
                    line.pop();
                }
                let next = skip_vec(&rest, i + 1);
                let ghost before = out@.map_values(|l: Vec<char>| l@);
                let ghost lv = line@;
                out.push(line);
                proof {
                    assert(out@.map_values(|l: Vec<char>| l@) =~= before.push(lv));
                    assert(lines_spec(rest@) == seq![lv] + lines_spec(next@));
                    assert(before + (seq![lv] + lines_spec(next@)) =~= before.push(lv) + lines_spec(next@));
                }
                rest = next;
            },
        }
    }
}

/// The first `k` characters of `v`.
pub fn take_vec(v: &Vec<char>, k: usize) -> (r: Vec<char>)
    requires
        k <= v@.len(),
    ensures
        r@ == v@.take(k as int),
{
    let mut out: Vec<char> = Vec::new();
    let mut i: usize = 0;
    while i < k
        invariant
            k <= v@.len(),
            i <= k,
            out@ == v@.take(i as int),
        decreases k - i,
    {
        out.push(v[i]);
        proof {
            assert(v@.take(i + 1) =~= v@.take(i as int).push(v@[i as int]));
        }
        i = i + 1;
    }
    out
}

/// Lines joined by `\n`.
pub open spec fn join_lines(ls: Seq<Seq<char>>) -> Seq<char>
    decreases ls.len(),
{
    if ls.len() == 0 {
        seq![]
    } else if ls.len() == 1 {
        ls[0]
    } else {
        join_lines(ls.drop_last()) + seq!['\n'] + ls.last()
    }
}

/// What `Regex::new(pattern)` followed by `replace_all(text, rep)`
/// produces (the text unchanged when the pattern does not compile).
pub uninterp spec fn regex_replace_all_spec(pattern: Seq<char>, text: Seq<char>, rep: Seq<char>) -> Seq<char>;

/// `regex::Regex::replace_all` with a pattern compiled by `Regex::new`.
#[verifier::external_body]
pub(crate) fn regex_replace_all(pattern: &str, text: &str, rep: &str) -> (r: String)
    ensures
        r@ == regex_replace_all_spec(pattern@, text@, rep@),
{
    match regex::Regex::new(pattern) {
        Ok(re) => re.replace_all(text, rep).into_owned(),
        Err(_) => text.to_string(),
    }
}

/// The cleaned lines that are not empty.
pub open spec fn nonempty_clean_lines(ls: Seq<Seq<char>>) -> Seq<Seq<char>>
    decreases ls.len(),
{
    if ls.len() == 0 {
        seq![]
    } else {
        let prev = nonempty_clean_lines(ls.drop_last());
        let c = clean(ls.last());
        if c.len() == 0 {
            prev
        } else {
            prev.push(c)
        }
    }
}

proof fn lemma_join_lines_push(ls: Seq<Seq<char>>, l: Seq<char>)
    ensures
        join_lines(ls.push(l)) == if ls.len() == 0 {
            l
        } else {
            join_lines(ls) + seq!['\n'] + l
        },
{
    assert(ls.push(l).drop_last() =~= ls);
}

/// The lines of `s`, each with its whitespace collapsed, without the
/// empty ones, joined by `\n`.
pub fn tidy_lines(s: &Vec<char>) -> (r: Vec<char>)
    ensures
        r@ == join_lines(nonempty_clean_lines(lines_spec(s@))),
{
    let ls = lines(s);
    let ghost lv = ls@.map_values(|l: Vec<char>| l@);
    let mut out: Vec<char> = Vec::new();
    let mut count: usize = 0;
    let mut i: usize = 0;
    while i < ls.len()
        invariant
            lv == ls@.map_values(|l: Vec<char>| l@),
            i <= ls@.len(),
            out@ == join_lines(nonempty_clean_lines(lv.take(i as int))),
            count == nonempty_clean_lines(lv.take(i as int)).len(),
            count <= i,
        decreases ls@.len() - i,
    {
        proof {
            assert(lv.take(i + 1).drop_last() =~= lv.take(i as int));
            assert(lv.take(i + 1).last() == ls@[i as int]@);
        }
        let c = clean_chars(&ls[i]);
        if c.len() > 0 {
            let ghost prev = nonempty_clean_lines(lv.take(i as int));
            proof {
                lemma_join_lines_push(prev, c@);
            }
            if count > 0 {
                out.push('\n');
            }
            let ghost before = out@;
            extend_range(&mut out, &c, 0, c.len());
            proof {
                assert(c@.subrange(0, c@.len() as int) =~= c@);
            }
            count = count + 1;
        }
        i = i + 1;
    }
    proof {
        assert(lv.take(ls@.len() as int) =~= lv);
    }
    out
}

/// Every character is whitespace (so `str::trim` leaves nothing).
pub open spec fn is_blank(s: Seq<char>) -> bool {
    forall|i: int| 0 <= i < s.len() ==> is_ws(#[trigger] s[i])
}

/// Whether `s.trim().is_empty()`.
pub fn trim_is_empty(s: &str) -> (b: bool)
    ensures
        b == is_blank(s@),
{
    let v = chars_of(s);
    let mut i: usize = 0;
    while i < v.len()
        invariant
            v@ == s@,
            i <= v@.len(),
            forall|j: int| 0 <= j < i ==> is_ws(#[trigger] v@[j]),
        decreases v@.len() - i,
    {
        if !char_is_whitespace(v[i]) {
            return false;
        }
        i = i + 1;
    }
    true
}

/// `str::trim_start`: the string without its leading whitespace.
pub open spec fn trim_start_spec(s: Seq<char>) -> Seq<char>
    decreases s.len(),
{
    if s.len() > 0 && is_ws(s[0]) {
        trim_start_spec(s.drop_first())
    } else {
        s
    }
}

/// `str::trim_start`.
pub fn trim_start(v: &Vec<char>) -> (r: Vec<char>)
    ensures
        r@ == trim_start_spec(v@),
{
    let mut i: usize = 0;
    proof {
        assert(v@.skip(0) =~= v@);
    }
    while i < v.len() && char_is_whitespace(v[i])
        invariant
            i <= v@.len(),
            trim_start_spec(v@) == trim_start_spec(v@.skip(i as int)),
        decreases v@.len() - i,
    {
        proof {
            assert(v@.skip(i as int).drop_first() =~= v@.skip(i + 1));
        }
        i = i + 1;
    }
    skip_vec(v, i)
}

/// `str::trim`: the string without leading and trailing whitespace.
pub open spec fn trim_spec(s: Seq<char>) -> Seq<char> {
    trim_end_spec(trim_start_spec(s))
}

/// `str::trim_end`.
pub open spec fn trim_end_spec(s: Seq<char>) -> Seq<char>
    decreases s.len(),
{
    if s.len() > 0 && is_ws(s.last()) {
        trim_end_spec(s.drop_last())
    } else {
        s
    }
}

/// `str::trim_end`.
pub fn trim_end(v: &Vec<char>) -> (r: Vec<char>)
    ensures
        r@ == trim_end_spec(v@),
{
    let mut n: usize = v.len();
    proof {
        assert(v@.take(n as int) =~= v@);
    }
    while n > 0 && char_is_whitespace(v[n - 1])
        invariant
            n <= v@.len(),
            trim_end_spec(v@) == trim_end_spec(v@.take(n as int)),
        decreases n,
    {
        proof {
            assert(v@.take(n as int).drop_last() =~= v@.take(n - 1));
        }
        n = n - 1;
    }
    take_vec(v, n)
}

/// `str::trim`.
pub fn trim(s: &str) -> (r: Vec<char>)
    ensures
        r@ == trim_spec(s@),
{
    let v = chars_of(s);
    let a = trim_start(&v);
    trim_end(&a)
}

/// `String::from_utf8`: succeeds exactly on valid UTF-8, with the decoded
/// characters; the error text is the standard library's description.
#[verifier::external_body]
pub(crate) fn string_from_utf8(b: &[u8]) -> (r: Result<String, String>)
    ensures
        r is Ok <==> vstd::utf8::valid_utf8(b@),
        r matches Ok(s) ==> s@ == vstd::utf8::decode_utf8(b@),
{
    String::from_utf8(b.to_vec()).map_err(|e| e.to_string())
}

/// What `String::from_utf8_lossy` decodes bytes to.
pub uninterp spec fn utf8_lossy_spec(b: Seq<u8>) -> Seq<char>;

/// `String::from_utf8_lossy`: valid UTF-8 decodes to its characters;
/// otherwise each invalid sequence is replaced by U+FFFD, so at least one
/// appears. Where the replacements stand is not stated here.
#[verifier::external_body]
pub(crate) fn string_from_utf8_lossy(b: &[u8]) -> (r: String)
    ensures
        r@ == utf8_lossy_spec(b@),
        vstd::utf8::valid_utf8(b@) ==> r@ == vstd::utf8::decode_utf8(b@),
        !vstd::utf8::valid_utf8(b@) ==> r@.contains('\u{FFFD}'),
{
    String::from_utf8_lossy(b).into_owned()
}

} // verus!
