//! Character-level text handling: the views are `Seq<char>`, and every
//! operation is specified over those sequences.

use vstd::prelude::*;

verus! {

/// Appends one character to a string (`String::push`).
///
/// Trusted: std documents that `push` appends the given char to the end of
/// the string, which is what the postcondition states.
#[verifier::external_body]
pub(crate) fn push_char(s: &mut String, c: char)
    ensures
        final(s)@ == old(s)@.push(c),
{
    s.push(c);
}

/// The characters of a string, in order.
pub fn chars_of(s: &str) -> (v: Vec<char>)
    ensures
        v@ == s@,
{
    let mut v: Vec<char> = Vec::new();
    for c in it: s.chars()
        invariant
            v@ == it.seq().take(it.index() as int),
    {
        v.push(c);
    }
    v
}

} // verus!

verus! {

/// ASCII lower-casing of one character; every other character is kept.
pub open spec fn lower_char(c: char) -> char {
    if 'A' <= c && c <= 'Z' {
        ((c as u32) + 32) as char
    } else {
        c
    }
}

/// ASCII lower-casing of a whole text (`to_ascii_lowercase`).
pub open spec fn lower(s: Seq<char>) -> Seq<char> {
    s.map_values(|c: char| lower_char(c))
}

/// `n` occurs in `h` starting at position `i`.
pub open spec fn occurs_at(h: Seq<char>, n: Seq<char>, i: int) -> bool {
    0 <= i && i + n.len() <= h.len() && h.subrange(i, i + n.len()) == n
}

/// `n` occurs somewhere in `h` (`str::contains`).
pub open spec fn has_sub(h: Seq<char>, n: Seq<char>) -> bool {
    exists|i: int| occurs_at(h, n, i)
}

/// `h` begins with `n` (`str::starts_with`).
pub open spec fn has_prefix(h: Seq<char>, n: Seq<char>) -> bool {
    occurs_at(h, n, 0)
}

/// `h` ends with `n` (`str::ends_with`).
pub open spec fn has_suffix(h: Seq<char>, n: Seq<char>) -> bool {
    n.len() <= h.len() && occurs_at(h, n, h.len() - n.len())
}

pub fn lower_char_exec(c: char) -> (r: char)
    ensures
        r == lower_char(c),
{
    if 'A' <= c && c <= 'Z' {
        ((c as u8) + 32) as char
    } else {
        c
    }
}

/// ASCII lower-cased characters of a text.
pub fn lower_chars(s: &Vec<char>) -> (r: Vec<char>)
    ensures
        r@ == lower(s@),
{
    let mut r: Vec<char> = Vec::new();
    let mut i: usize = 0;
    while i < s.len()
        invariant
            i <= s.len(),
            r@ == lower(s@.take(i as int)),
        decreases s.len() - i,
    {
        r.push(lower_char_exec(s[i]));
        assert(s@.take(i + 1) == s@.take(i as int).push(s@[i as int]));
        i = i + 1;
    }
    assert(s@.take(s.len() as int) == s@);
    r
}

/// A string holding the given characters.
pub fn string_of(v: &Vec<char>) -> (s: String)
    ensures
        s@ == v@,
{
    let mut s = String::new();
    let mut i: usize = 0;
    while i < v.len()
        invariant
            i <= v.len(),
            s@ == v@.take(i as int),
        decreases v.len() - i,
    {
        push_char(&mut s, v[i]);
        assert(v@.take(i + 1) == v@.take(i as int).push(v@[i as int]));
        i = i + 1;
    }
    assert(v@.take(v.len() as int) == v@);
    s
}

/// ASCII lower-casing of a string (`str::to_ascii_lowercase`).
pub fn to_lower(s: &str) -> (r: String)
    ensures
        r@ == lower(s@),
{
    let v = chars_of(s);
    let l = lower_chars(&v);
    string_of(&l)
}

/// Whether `n` occurs in `h` at position `i`.
pub fn match_at(h: &Vec<char>, n: &Vec<char>, i: usize) -> (r: bool)
    ensures
        r == occurs_at(h@, n@, i as int),
{
    if i > h.len() || n.len() > h.len() - i {
        return false;
    }
    let mut j: usize = 0;
    while j < n.len()
        invariant
            i + n.len() <= h.len(),
            j <= n.len(),
            forall|k: int| 0 <= k < j ==> h@[i + k] == n@[k],
        decreases n.len() - j,
    {
        if h[i + j] != n[j] {
            assert(h@.subrange(i as int, i + n.len())[j as int] != n@[j as int]);
            return false;
        }
        j = j + 1;
    }
    assert(h@.subrange(i as int, i + n.len()) =~= n@);
    true
}

/// Whether `n` occurs anywhere in `h`.
pub fn contains_chars(h: &Vec<char>, n: &Vec<char>) -> (r: bool)
    ensures
        r == has_sub(h@, n@),
{
    if n.len() > h.len() {
        return false;
    }
    let last = h.len() - n.len();
    let mut i: usize = 0;
    loop
        invariant
            n.len() <= h.len(),
            last == h.len() - n.len(),
            i <= last,
            forall|k: int| 0 <= k < i ==> !occurs_at(h@, n@, k),
        decreases last - i,
    {
        if match_at(h, n, i) {
            return true;
        }
        if i == last {
            return false;
        }
        i = i + 1;
    }
}

/// Whether `h` begins with `n`.
pub fn starts_with_chars(h: &Vec<char>, n: &Vec<char>) -> (r: bool)
    ensures
        r == has_prefix(h@, n@),
{
    match_at(h, n, 0)
}

/// Whether `h` ends with `n`.
pub fn ends_with_chars(h: &Vec<char>, n: &Vec<char>) -> (r: bool)
    ensures
        r == has_suffix(h@, n@),
{
    if n.len() > h.len() {
        false
    } else {
        match_at(h, n, h.len() - n.len())
    }
}

/// Whether two character sequences are equal.
pub fn chars_eq(a: &Vec<char>, b: &Vec<char>) -> (r: bool)
    ensures
        r == (a@ == b@),
{
    if a.len() != b.len() {
        return false;
    }
    assert(a@.subrange(0, a@.len() as int) =~= a@);
    match_at(a, b, 0)
}

} // verus!

verus! {

/// `char::is_whitespace`: the characters with the Unicode `White_Space`
/// property.
pub open spec fn is_ws(c: char) -> bool {
    let u = c as u32;
    ||| 0x9 <= u <= 0xd
    ||| u == 0x20
    ||| u == 0x85
    ||| u == 0xa0
    ||| u == 0x1680
    ||| 0x2000 <= u <= 0x200a
    ||| u == 0x2028
    ||| u == 0x2029
    ||| u == 0x202f
    ||| u == 0x205f
    ||| u == 0x3000
}

pub fn is_ws_exec(c: char) -> (r: bool)
    ensures
        r == is_ws(c),
{
    let u = c as u32;
    (0x9 <= u && u <= 0xd) || u == 0x20 || u == 0x85 || u == 0xa0 || u == 0x1680 || (0x2000 <= u
        && u <= 0x200a) || u == 0x2028 || u == 0x2029 || u == 0x202f || u == 0x205f || u == 0x3000
}

/// Number of whitespace characters at the start of `s`.
pub open spec fn lead_ws(s: Seq<char>) -> nat
    decreases s.len(),
{
    if s.len() > 0 && is_ws(s[0]) {
        1 + lead_ws(s.drop_first())
    } else {
        0
    }
}

/// Number of whitespace characters at the end of `s`.
pub open spec fn trail_ws(s: Seq<char>) -> nat
    decreases s.len(),
{
    if s.len() > 0 && is_ws(s.last()) {
        1 + trail_ws(s.drop_last())
    } else {
        0
    }
}

/// `s` without leading and trailing whitespace (`str::trim`).
pub open spec fn trim(s: Seq<char>) -> Seq<char> {
    let t = s.skip(lead_ws(s) as int);
    t.take(t.len() - trail_ws(t))
}

proof fn lemma_lead_ws_bound(s: Seq<char>)
    ensures
        lead_ws(s) <= s.len(),
    decreases s.len(),
{
    if s.len() > 0 && is_ws(s[0]) {
        lemma_lead_ws_bound(s.drop_first());
    }
}

proof fn lemma_trail_ws_bound(s: Seq<char>)
    ensures
        trail_ws(s) <= s.len(),
    decreases s.len(),
{
    if s.len() > 0 && is_ws(s.last()) {
        lemma_trail_ws_bound(s.drop_last());
    }
}

/// Characters of `s` without leading and trailing whitespace.
pub fn trim_chars(s: &Vec<char>) -> (r: Vec<char>)
    ensures
        r@ == trim(s@),
{
    let mut a: usize = 0;
    assert(s@.skip(0) =~= s@);
    while a < s.len() && is_ws_exec(s[a])
        invariant
            a <= s.len(),
            lead_ws(s@) == a + lead_ws(s@.skip(a as int)),
        decreases s.len() - a,
    {
        assert(s@.skip(a as int).drop_first() =~= s@.skip(a + 1));
        a = a + 1;
    }
    assert(lead_ws(s@.skip(a as int)) == 0);
    let ghost t = s@.skip(a as int);
    let mut b: usize = s.len();
    assert(t.take(b - a) =~= t);
    while b > a && is_ws_exec(s[b - 1])
        invariant
            a <= b <= s.len(),
            t == s@.skip(a as int),
            trail_ws(t) == (s.len() - b) + trail_ws(t.take(b - a)),
        decreases b,
    {
        assert(t.take(b - a).drop_last() =~= t.take(b - 1 - a));
        b = b - 1;
    }
    assert(trail_ws(t.take(b - a)) == 0);
    let mut r: Vec<char> = Vec::new();
    let mut k: usize = a;
    while k < b
        invariant
            a <= k <= b <= s.len(),
            r@ == s@.subrange(a as int, k as int),
        decreases b - k,
    {
        r.push(s[k]);
        assert(s@.subrange(a as int, k + 1) =~= s@.subrange(a as int, k as int).push(s@[k as int]));
        k = k + 1;
    }
    assert(t.take(t.len() - trail_ws(t)) =~= s@.subrange(a as int, b as int));
    r
}

/// Whether every character is an ASCII digit (vacuously true when empty).
pub open spec fn all_digits(s: Seq<char>) -> bool {
    forall|i: int| 0 <= i < s.len() ==> '0' <= #[trigger] s[i] && s[i] <= '9'
}

pub fn all_digits_exec(s: &Vec<char>) -> (r: bool)
    ensures
        r == all_digits(s@),
{
    let mut i: usize = 0;
    while i < s.len()
        invariant
            i <= s.len(),
            forall|k: int| 0 <= k < i ==> '0' <= #[trigger] s@[k] && s@[k] <= '9',
        decreases s.len() - i,
    {
        if !('0' <= s[i] && s[i] <= '9') {
            return false;
        }
        i = i + 1;
    }
    true
}

/// Position of the first occurrence of `c` in `s`, if any (`str::find`).
pub open spec fn first_index(s: Seq<char>, c: char) -> Option<int> {
    if exists|i: int| 0 <= i < s.len() && s[i] == c {
        Some(choose|i: int| 0 <= i < s.len() && s[i] == c && forall|j: int| 0 <= j < i ==> s[j] != c)
    } else {
        None
    }
}

pub fn find_char(s: &Vec<char>, c: char) -> (r: Option<usize>)
    ensures
        r matches Some(i) ==> i < s.len() && s@[i as int] == c && forall|j: int|
            0 <= j < i ==> s@[j] != c,
        r is None ==> forall|j: int| 0 <= j < s.len() ==> s@[j] != c,
        r matches Some(i) ==> first_index(s@, c) == Some(i as int),
        r is None ==> first_index(s@, c) is None,
{
    let mut i: usize = 0;
    while i < s.len()
        invariant
            i <= s.len(),
            forall|j: int| 0 <= j < i ==> s@[j] != c,
        decreases s.len() - i,
    {
        if s[i] == c {
            proof {
                let k = choose|k: int|
                    0 <= k < s.len() && s@[k] == c && forall|j: int| 0 <= j < k ==> s@[j] != c;
                assert(0 <= k < s.len() && s@[k] == c && forall|j: int| 0 <= j < k ==> s@[j] != c) by {
                    assert(forall|j: int| 0 <= j < i ==> s@[j] != c);
                }
                assert(k == i as int) by {
                    if k < i {
                    } else if k > i {
                        assert(s@[i as int] != c);
                    }
                }
            }
            return Some(i);
        }
        i = i + 1;
    }
    None
}

} // verus!

verus! {

/// The views of a sequence of character vectors.
pub open spec fn views(v: Seq<Vec<char>>) -> Seq<Seq<char>> {
    v.map_values(|x: Vec<char>| x@)
}

/// The views of a sequence of byte vectors.
pub open spec fn byte_views(v: Seq<Vec<u8>>) -> Seq<Seq<u8>> {
    v.map_values(|x: Vec<u8>| x@)
}

/// The pieces of `s` between occurrences of `sep` (`split(sep)`): always at
/// least one piece, empty pieces included.
pub open spec fn pieces<A>(s: Seq<A>, sep: A) -> Seq<Seq<A>>
    decreases s.len(),
{
    if s.len() == 0 {
        seq![Seq::empty()]
    } else {
        let p = pieces(s.drop_last(), sep);
        if s.last() == sep {
            p.push(Seq::empty())
        } else {
            p.update(p.len() - 1, p.last().push(s.last()))
        }
    }
}

pub proof fn lemma_pieces_nonempty<A>(s: Seq<A>, sep: A)
    ensures
        pieces(s, sep).len() >= 1,
    decreases s.len(),
{
    if s.len() > 0 {
        lemma_pieces_nonempty(s.drop_last(), sep);
    }
}

/// Splits characters at every `sep`.
pub fn split_chars(s: &Vec<char>, sep: char) -> (r: Vec<Vec<char>>)
    ensures
        views(r@) == pieces(s@, sep),
        r.len() >= 1,
{
    let mut done: Vec<Vec<char>> = Vec::new();
    let mut cur: Vec<char> = Vec::new();
    let mut i: usize = 0;
    assert(s@.take(0) =~= Seq::<char>::empty());
    while i < s.len()
        invariant
            i <= s.len(),
            views(done@).push(cur@) == pieces(s@.take(i as int), sep),
        decreases s.len() - i,
    {
        let ghost pre = s@.take(i as int);
        proof {
            lemma_pieces_nonempty(pre, sep);
        }
        assert(s@.take(i + 1).drop_last() =~= pre);
        assert(s@.take(i + 1).last() == s@[i as int]);
        if s[i] == sep {
            done.push(cur);
            cur = Vec::new();
            assert(views(done@).push(cur@) =~= pieces(pre, sep).push(Seq::empty()));
        } else {
            let ghost before = cur@;
            cur.push(s[i]);
            assert(views(done@).push(cur@) =~= pieces(pre, sep).update(
                pieces(pre, sep).len() - 1,
                pieces(pre, sep).last().push(s@[i as int]),
            ));
        }
        i = i + 1;
    }
    assert(s@.take(s.len() as int) =~= s@);
    done.push(cur);
    assert(views(done@) =~= pieces(s@, sep));
    done
}

/// Splits bytes at every `sep`.
pub fn split_bytes(s: &Vec<u8>, sep: u8) -> (r: Vec<Vec<u8>>)
    ensures
        byte_views(r@) == pieces(s@, sep),
        r.len() >= 1,
{
    let mut done: Vec<Vec<u8>> = Vec::new();
    let mut cur: Vec<u8> = Vec::new();
    let mut i: usize = 0;
    assert(s@.take(0) =~= Seq::<u8>::empty());
    while i < s.len()
        invariant
            i <= s.len(),
            byte_views(done@).push(cur@) == pieces(s@.take(i as int), sep),
        decreases s.len() - i,
    {
        let ghost pre = s@.take(i as int);
        proof {
            lemma_pieces_nonempty(pre, sep);
        }
        assert(s@.take(i + 1).drop_last() =~= pre);
        assert(s@.take(i + 1).last() == s@[i as int]);
        if s[i] == sep {
            done.push(cur);
            cur = Vec::new();
            assert(byte_views(done@).push(cur@) =~= pieces(pre, sep).push(Seq::empty()));
        } else {
            cur.push(s[i]);
            assert(byte_views(done@).push(cur@) =~= pieces(pre, sep).update(
                pieces(pre, sep).len() - 1,
                pieces(pre, sep).last().push(s@[i as int]),
            ));
        }
        i = i + 1;
    }
    assert(s@.take(s.len() as int) =~= s@);
    done.push(cur);
    assert(byte_views(done@) =~= pieces(s@, sep));
    done
}

/// A line without its carriage return, when the line ended in `\r\n`.
pub open spec fn strip_cr(l: Seq<char>) -> Seq<char> {
    if l.len() > 0 && l.last() == '\r' {
        l.drop_last()
    } else {
        l
    }
}

/// A line without its trailing carriage return, if it has one.
pub fn strip_cr_chars(l: &Vec<char>) -> (r: Vec<char>)
    ensures
        r@ == strip_cr(l@),
{
    let mut r = l.clone();
    let n = l.len();
    if n > 0 && l[n - 1] == '\r' {
        r.pop();
    }
    assert(r@ =~= strip_cr(l@));
    r
}

/// The lines of a text (`str::lines`): split at `\n`, a `\r` before the
/// `\n` removed, and no empty last line after a final line ending.
pub open spec fn lines(s: Seq<char>) -> Seq<Seq<char>> {
    let p = pieces(s, '\n');
    let body = p.drop_last().map_values(|l: Seq<char>| strip_cr(l));
    if p.last().len() == 0 {
        body
    } else {
        body.push(p.last())
    }
}

/// The lines of a text.
pub fn lines_of(s: &Vec<char>) -> (r: Vec<Vec<char>>)
    ensures
        views(r@) == lines(s@),
{
    let p = split_chars(s, '\n');
    let ghost ps = pieces(s@, '\n');
    let mut r: Vec<Vec<char>> = Vec::new();
    let mut i: usize = 0;
    while i + 1 < p.len()
        invariant
            p.len() >= 1,
            views(p@) == ps,
            i + 1 <= p.len(),
            views(r@) == ps.drop_last().take(i as int).map_values(|l: Seq<char>| strip_cr(l)),
        decreases p.len() - i,
    {
        let piece = &p[i];
        assert(piece@ == ps[i as int]);
        let n = piece.len();
        let mut l: Vec<char> = piece.clone();
        if n > 0 && piece[n - 1] == '\r' {
            l.pop();
        }
        assert(l@ == strip_cr(ps[i as int]));
        let ghost prev_r = views(r@);
        r.push(l);
        assert(ps.drop_last().take(i + 1) =~= ps.drop_last().take(i as int).push(ps[i as int]));
        assert(views(r@) =~= prev_r.push(strip_cr(ps[i as int])));
        assert(views(r@) =~= ps.drop_last().take(i + 1).map_values(|l: Seq<char>| strip_cr(l)));
        i = i + 1;
    }
    assert(ps.drop_last().take(i as int) =~= ps.drop_last());
    let last = &p[p.len() - 1];
    assert(last@ == ps.last());
    if last.len() > 0 {
        r.push(last.clone());
        assert(views(r@) =~= lines(s@));
    }
    r
}

} // verus!

verus! {

/// The whitespace-separated words of a text (`str::split_whitespace`).
pub open spec fn words(s: Seq<char>) -> Seq<Seq<char>>
    decreases s.len(),
{
    if s.len() == 0 {
        seq![]
    } else {
        let w = words(s.drop_last());
        let c = s.last();
        if is_ws(c) {
            w
        } else if s.len() >= 2 && !is_ws(s[s.len() - 2]) {
            w.update(w.len() - 1, w.last().push(c))
        } else {
            w.push(seq![c])
        }
    }
}

proof fn lemma_words_nonempty(s: Seq<char>)
    requires
        s.len() > 0,
        !is_ws(s.last()),
    ensures
        words(s).len() >= 1,
    decreases s.len(),
{
    if s.len() >= 2 && !is_ws(s[s.len() - 2]) {
        assert(s.drop_last().last() == s[s.len() - 2]);
        lemma_words_nonempty(s.drop_last());
    }
}

/// The whitespace-separated words of a text.
pub fn words_of(s: &Vec<char>) -> (r: Vec<Vec<char>>)
    ensures
        views(r@) == words(s@),
{
    let mut done: Vec<Vec<char>> = Vec::new();
    let mut cur: Vec<char> = Vec::new();
    let mut in_word = false;
    let mut i: usize = 0;
    assert(s@.take(0) =~= Seq::<char>::empty());
    while i < s.len()
        invariant
            i <= s.len(),
            in_word == (i > 0 && !is_ws(s@[i - 1])),
            in_word ==> views(done@).push(cur@) == words(s@.take(i as int)),
            !in_word ==> views(done@) == words(s@.take(i as int)),
        decreases s.len() - i,
    {
        let ghost pre = s@.take(i as int);
        let ghost w = words(pre);
        assert(s@.take(i + 1).drop_last() =~= pre);
        assert(s@.take(i + 1).last() == s@[i as int]);
        let c = s[i];
        if is_ws_exec(c) {
            if in_word {
                done.push(cur);
                cur = Vec::new();
            }
            in_word = false;
        } else if in_word {
            assert(s@.take(i + 1)[i - 1] == s@[i - 1]);
            proof {
                assert(pre.last() == s@[i - 1]);
                lemma_words_nonempty(pre);
            }
            let ghost before = views(done@);
            cur.push(c);
            assert(views(done@).push(cur@) =~= w.update(w.len() - 1, w.last().push(c)));
        } else {
            if i > 0 {
                assert(s@.take(i + 1)[i - 1] == s@[i - 1]);
            }
            cur = Vec::new();
            cur.push(c);
            assert(cur@ =~= seq![c]);
            in_word = true;
        }
        i = i + 1;
    }
    assert(s@.take(s.len() as int) =~= s@);
    if in_word {
        done.push(cur);
    }
    done
}

/// `list` joined with `sep` between consecutive items (`join`).
pub open spec fn join(list: Seq<Seq<char>>, sep: Seq<char>) -> Seq<char>
    decreases list.len(),
{
    if list.len() == 0 {
        Seq::empty()
    } else if list.len() == 1 {
        list[0]
    } else {
        join(list.drop_last(), sep) + sep + list.last()
    }
}

/// Joins character sequences with a separator.
pub fn join_chars(list: &Vec<Vec<char>>, sep: &Vec<char>) -> (r: Vec<char>)
    ensures
        r@ == join(views(list@), sep@),
{
    let mut r: Vec<char> = Vec::new();
    let mut i: usize = 0;
    assert(views(list@).take(0) =~= Seq::<Seq<char>>::empty());
    while i < list.len()
        invariant
            i <= list.len(),
            r@ == join(views(list@).take(i as int), sep@),
        decreases list.len() - i,
    {
        let ghost pre = views(list@).take(i as int);
        assert(views(list@).take(i + 1).drop_last() =~= pre);
        if i > 0 {
            append_chars(&mut r, sep);
        }
        append_chars(&mut r, &list[i]);
        assert(r@ =~= join(views(list@).take(i + 1), sep@));
        i = i + 1;
    }
    assert(views(list@).take(list.len() as int) =~= views(list@));
    r
}

/// Appends characters to a character vector.
pub fn append_chars(r: &mut Vec<char>, s: &Vec<char>)
    ensures
        final(r)@ == old(r)@ + s@,
{
    let mut i: usize = 0;
    while i < s.len()
        invariant
            i <= s.len(),
            r@ == old(r)@ + s@.take(i as int),
        decreases s.len() - i,
    {
        r.push(s[i]);
        assert(s@.take(i + 1) =~= s@.take(i as int).push(s@[i as int]));
        i = i + 1;
    }
    assert(s@.take(s.len() as int) =~= s@);
}

} // verus!

verus! {

/// The ASCII digit for `d < 10`.
pub open spec fn digit_char(d: nat) -> char {
    ((d + 48) as u32) as char
}

/// Decimal notation of a natural number (`Display` for unsigned integers).
pub open spec fn decimal(n: nat) -> Seq<char>
    decreases n,
{
    if n < 10 {
        seq![digit_char(n)]
    } else {
        decimal(n / 10).push(digit_char(n % 10))
    }
}

/// Decimal notation of an integer (`Display` for signed integers).
pub open spec fn signed_decimal(i: int) -> Seq<char> {
    if i < 0 {
        seq!['-'] + decimal((-i) as nat)
    } else {
        decimal(i as nat)
    }
}

fn digit_exec(d: u64) -> (c: char)
    requires
        d < 10,
    ensures
        c == digit_char(d as nat),
{
    ((d as u8) + 48) as char
}

/// Decimal digits of an unsigned number.
pub fn decimal_chars(n: u64) -> (r: Vec<char>)
    ensures
        r@ == decimal(n as nat),
    decreases n,
{
    if n < 10 {
        let mut r: Vec<char> = Vec::new();
        r.push(digit_exec(n));
        assert(r@ =~= seq![digit_char(n as nat)]);
        r
    } else {
        let mut r = decimal_chars(n / 10);
        r.push(digit_exec(n % 10));
        r
    }
}

/// Decimal notation of a signed number, with a leading `-` when negative.
pub fn signed_decimal_chars(i: i64) -> (r: Vec<char>)
    ensures
        r@ == signed_decimal(i as int),
{
    if i < 0 {
        let m: u64 = if i == i64::MIN {
            9223372036854775808u64
        } else {
            (-i) as u64
        };
        let mut r: Vec<char> = Vec::new();
        r.push('-');
        let d = decimal_chars(m);
        append_chars(&mut r, &d);
        assert(r@ =~= seq!['-'] + decimal((-i) as nat));
        r
    } else {
        decimal_chars(i as u64)
    }
}

/// The text of a byte sequence, when it is valid UTF-8 (`std::str::from_utf8`).
///
/// Trusted: std documents that `from_utf8` succeeds exactly on valid UTF-8
/// and then returns a string slice over the same bytes; the postcondition
/// states this through vstd's UTF-8 model.
#[verifier::external_body]
pub(crate) fn utf8_text(b: &[u8]) -> (r: Option<&str>)
    ensures
        r is Some <==> vstd::utf8::valid_utf8(b@),
        r matches Some(t) ==> t@ == vstd::utf8::decode_utf8(b@),
{
    std::str::from_utf8(b).ok()
}

} // verus!

verus! {

/// The views of a sequence of strings.
pub open spec fn string_views(v: Seq<String>) -> Seq<Seq<char>> {
    v.map_values(|x: String| x@)
}

/// Appends the characters of a string slice.
pub fn push_str(r: &mut Vec<char>, s: &str)
    ensures
        final(r)@ == old(r)@ + s@,
{
    let c = chars_of(s);
    append_chars(r, &c);
}

/// The characters of each string.
pub fn chars_of_all(v: &Vec<String>) -> (r: Vec<Vec<char>>)
    ensures
        views(r@) == string_views(v@),
{
    let mut r: Vec<Vec<char>> = Vec::new();
    let mut i: usize = 0;
    while i < v.len()
        invariant
            i <= v.len(),
            views(r@) == string_views(v@).take(i as int),
        decreases v.len() - i,
    {
        let c = chars_of(v[i].as_str());
        let ghost prev = views(r@);
        r.push(c);
        assert(views(r@) =~= prev.push(c@));
        assert(views(r@) =~= string_views(v@).take(i + 1));
        i = i + 1;
    }
    assert(string_views(v@).take(v.len() as int) =~= string_views(v@));
    r
}

/// Strings joined with a separator (`[String]::join`).
pub fn join_strings(list: &Vec<String>, sep: &str) -> (r: String)
    ensures
        r@ == join(string_views(list@), sep@),
{
    let parts = chars_of_all(list);
    let s = chars_of(sep);
    let j = join_chars(&parts, &s);
    string_of(&j)
}

/// Strings for each character sequence.
pub fn strings_of(v: &Vec<Vec<char>>) -> (r: Vec<String>)
    ensures
        string_views(r@) == views(v@),
{
    let mut r: Vec<String> = Vec::new();
    let mut i: usize = 0;
    while i < v.len()
        invariant
            i <= v.len(),
            string_views(r@) == views(v@).take(i as int),
        decreases v.len() - i,
    {
        let s = string_of(&v[i]);
        let ghost prev = string_views(r@);
        r.push(s);
        assert(string_views(r@) =~= prev.push(s@));
        assert(string_views(r@) =~= views(v@).take(i + 1));
        i = i + 1;
    }
    assert(views(v@).take(v.len() as int) =~= views(v@));
    r
}

} // verus!

verus! {

/// The first line of `ls` that begins with `p`, if any.
pub open spec fn first_prefixed(ls: Seq<Seq<char>>, p: Seq<char>) -> Option<Seq<char>>
    decreases ls.len(),
{
    if ls.len() == 0 {
        None
    } else if has_prefix(ls[0], p) {
        Some(ls[0])
    } else {
        first_prefixed(ls.drop_first(), p)
    }
}

/// The first line that begins with `p`, if any.
pub fn find_prefixed(ls: &Vec<Vec<char>>, p: &Vec<char>) -> (r: Option<Vec<char>>)
    ensures
        r matches Some(l) ==> first_prefixed(views(ls@), p@) == Some(l@),
        r is None ==> first_prefixed(views(ls@), p@) is None,
{
    let ghost all = views(ls@);
    let mut i: usize = 0;
    assert(all.skip(0) =~= all);
    while i < ls.len()
        invariant
            i <= ls.len(),
            all == views(ls@),
            first_prefixed(all, p@) == first_prefixed(all.skip(i as int), p@),
        decreases ls.len() - i,
    {
        assert(all.skip(i as int)[0] == ls@[i as int]@);
        if starts_with_chars(&ls[i], p) {
            return Some(ls[i].clone());
        }
        assert(all.skip(i as int).drop_first() =~= all.skip(i + 1));
        i = i + 1;
    }
    assert(all.skip(i as int).len() == 0);
    None
}

} // verus!

verus! {

/// `s` without leading whitespace (`str::trim_start`).
pub open spec fn trim_start(s: Seq<char>) -> Seq<char> {
    s.skip(lead_ws(s) as int)
}

/// Characters of `s` without leading whitespace.
pub fn trim_start_chars(s: &Vec<char>) -> (r: Vec<char>)
    ensures
        r@ == trim_start(s@),
{
    let mut a: usize = 0;
    assert(s@.skip(0) =~= s@);
    while a < s.len() && is_ws_exec(s[a])
        invariant
            a <= s.len(),
            lead_ws(s@) == a + lead_ws(s@.skip(a as int)),
        decreases s.len() - a,
    {
        assert(s@.skip(a as int).drop_first() =~= s@.skip(a + 1));
        a = a + 1;
    }
    assert(lead_ws(s@.skip(a as int)) == 0);
    skip_chars(s, a)
}

/// The characters of `s` from position `a` on.
pub fn skip_chars(s: &Vec<char>, a: usize) -> (r: Vec<char>)
    requires
        a <= s.len(),
    ensures
        r@ == s@.skip(a as int),
{
    let mut r: Vec<char> = Vec::new();
    let mut k: usize = a;
    while k < s.len()
        invariant
            a <= k <= s.len(),
            r@ == s@.subrange(a as int, k as int),
        decreases s.len() - k,
    {
        r.push(s[k]);
        assert(s@.subrange(a as int, k + 1) =~= s@.subrange(a as int, k as int).push(s@[k as int]));
        k = k + 1;
    }
    assert(s@.subrange(a as int, s.len() as int) =~= s@.skip(a as int));
    r
}

/// The last piece of `s` after splitting at `sep` (`rsplit(sep).next()`).
pub fn last_piece(s: &Vec<char>, sep: char) -> (r: Vec<char>)
    ensures
        r@ == pieces(s@, sep).last(),
{
    let p = split_chars(s, sep);
    let r = p[p.len() - 1].clone();
    assert(r@ == views(p@)[p.len() - 1]);
    r
}

} // verus!

verus! {

/// `f` applied to every item of `s`, the results concatenated in order.
pub open spec fn flat_map<A, B>(s: Seq<A>, f: spec_fn(A) -> Seq<B>) -> Seq<B>
    decreases s.len(),
{
    if s.len() == 0 {
        seq![]
    } else {
        flat_map(s.drop_last(), f) + f(s.last())
    }
}

pub proof fn lemma_flat_map_step<A, B>(s: Seq<A>, f: spec_fn(A) -> Seq<B>, i: int)
    requires
        0 <= i < s.len(),
    ensures
        flat_map(s.take(i + 1), f) == flat_map(s.take(i), f) + f(s[i]),
{
    assert(s.take(i + 1).drop_last() =~= s.take(i));
}

pub proof fn lemma_flat_map_all<A, B>(s: Seq<A>, f: spec_fn(A) -> Seq<B>)
    ensures
        flat_map(s.take(s.len() as int), f) == flat_map(s, f),
{
    assert(s.take(s.len() as int) =~= s);
}

/// `flat_map` over the empty prefix is empty.
pub proof fn lemma_flat_map_empty<A, B>(s: Seq<A>, f: spec_fn(A) -> Seq<B>)
    ensures
        flat_map(s.take(0), f) == Seq::<B>::empty(),
{
    assert(s.take(0) =~= Seq::<A>::empty());
}

} // verus!

verus! {

/// Appends strings to a list of strings.
pub fn extend_strings(r: &mut Vec<String>, more: Vec<String>)
    ensures
        string_views(final(r)@) == string_views(old(r)@) + string_views(more@),
{
    let mut i: usize = 0;
    while i < more.len()
        invariant
            i <= more.len(),
            string_views(r@) == string_views(old(r)@) + string_views(more@).take(i as int),
        decreases more.len() - i,
    {
        let ghost prev = string_views(r@);
        r.push(more[i].clone());
        assert(string_views(r@) =~= prev.push(more@[i as int]@));
        assert(string_views(more@).take(i + 1) =~= string_views(more@).take(i as int).push(more@[i as int]@));
        i = i + 1;
    }
    assert(string_views(more@).take(more.len() as int) =~= string_views(more@));
}

} // verus!

verus! {

/// `flat_map` is non-empty exactly when some item maps to a non-empty result.
pub proof fn lemma_flat_map_any_len<A, B>(s: Seq<A>, f: spec_fn(A) -> Seq<B>)
    ensures
        flat_map(s, f).len() > 0 <==> exists|i: int| 0 <= i < s.len() && f(#[trigger] s[i]).len() > 0,
    decreases s.len(),
{
    if s.len() > 0 {
        let pre = s.drop_last();
        lemma_flat_map_any_len(pre, f);
        if exists|i: int| 0 <= i < pre.len() && f(#[trigger] pre[i]).len() > 0 {
            let i = choose|i: int| 0 <= i < pre.len() && f(#[trigger] pre[i]).len() > 0;
            assert(s[i] == pre[i]);
        }
        if exists|i: int| 0 <= i < s.len() && f(#[trigger] s[i]).len() > 0 {
            let i = choose|i: int| 0 <= i < s.len() && f(#[trigger] s[i]).len() > 0;
            if i < pre.len() {
                assert(pre[i] == s[i]);
            }
        }
        assert(s[s.len() - 1] == s.last());
    }
}

} // verus!

verus! {

/// Splitting `s + t` when `t` holds no separator extends the last piece.
pub proof fn lemma_pieces_append<A>(s: Seq<A>, t: Seq<A>, sep: A)
    requires
        !t.contains(sep),
    ensures
        pieces(s + t, sep) == pieces(s, sep).update(
            pieces(s, sep).len() - 1,
            pieces(s, sep).last() + t,
        ),
    decreases t.len(),
{
    lemma_pieces_nonempty(s, sep);
    if t.len() == 0 {
        assert(s + t =~= s);
        assert(pieces(s, sep).last() + t =~= pieces(s, sep).last());
        assert(pieces(s, sep).update(pieces(s, sep).len() - 1, pieces(s, sep).last())
            =~= pieces(s, sep));
    } else {
        let t0 = t.drop_last();
        assert(!t0.contains(sep)) by {
            if t0.contains(sep) {
                let k = choose|k: int| 0 <= k < t0.len() && t0[k] == sep;
                assert(t[k] == sep);
            }
        }
        lemma_pieces_append(s, t0, sep);
        assert((s + t).drop_last() =~= s + t0);
        assert((s + t).last() == t.last());
        assert(t.last() != sep) by {
            assert(t[t.len() - 1] == t.last());
        }
        lemma_pieces_nonempty(s + t0, sep);
        assert(pieces(s, sep).last() + t =~= (pieces(s, sep).last() + t0).push(t.last()));
        assert(pieces(s + t, sep) =~= pieces(s, sep).update(
            pieces(s, sep).len() - 1,
            pieces(s, sep).last() + t,
        ));
    }
}

/// No piece holds the separator.
pub proof fn lemma_pieces_no_sep<A>(s: Seq<A>, sep: A)
    ensures
        forall|i: int| 0 <= i < pieces(s, sep).len() ==> !(#[trigger] pieces(s, sep)[i]).contains(sep),
    decreases s.len(),
{
    if s.len() > 0 {
        let pre = s.drop_last();
        lemma_pieces_no_sep(pre, sep);
        lemma_pieces_nonempty(pre, sep);
        let p = pieces(pre, sep);
        if s.last() != sep {
            assert forall|i: int| 0 <= i < pieces(s, sep).len() implies !(
            #[trigger] pieces(s, sep)[i]).contains(sep) by {
                if i == p.len() - 1 {
                    let q = p.last().push(s.last());
                    assert(pieces(s, sep)[i] == q);
                    if q.contains(sep) {
                        let k = choose|k: int| 0 <= k < q.len() && q[k] == sep;
                        if k < p.last().len() {
                            assert(p[p.len() - 1][k] == sep);
                            assert(p[p.len() - 1].contains(sep));
                        }
                    }
                } else {
                    assert(pieces(s, sep)[i] == p[i]);
                }
            }
        } else {
            assert forall|i: int| 0 <= i < pieces(s, sep).len() implies !(
            #[trigger] pieces(s, sep)[i]).contains(sep) by {
                if i < p.len() {
                    assert(pieces(s, sep)[i] == p[i]);
                } else {
                    assert(pieces(s, sep)[i] =~= Seq::<A>::empty());
                }
            }
        }
    }
}

/// Splitting a join at its separator gives the items back, when the
/// separator is a single item that occurs in none of them.
pub proof fn lemma_pieces_join(ls: Seq<Seq<char>>, sep: char)
    requires
        ls.len() >= 1,
        forall|i: int| 0 <= i < ls.len() ==> !(#[trigger] ls[i]).contains(sep),
    ensures
        pieces(join(ls, seq![sep]), sep) == ls,
    decreases ls.len(),
{
    if ls.len() == 1 {
        lemma_pieces_append(Seq::<char>::empty(), ls[0], sep);
        assert(Seq::<char>::empty() + ls[0] =~= ls[0]);
        assert(pieces(Seq::<char>::empty(), sep).last() + ls[0] =~= ls[0]);
        assert(pieces(join(ls, seq![sep]), sep) =~= ls);
    } else {
        let pre = ls.drop_last();
        assert forall|i: int| 0 <= i < pre.len() implies !(#[trigger] pre[i]).contains(sep) by {
            assert(pre[i] == ls[i]);
        }
        lemma_pieces_join(pre, sep);
        let a = join(pre, seq![sep]);
        let b = a + seq![sep];
        assert(b.drop_last() =~= a);
        assert(b.last() == sep);
        assert(pieces(b, sep) == pre.push(Seq::<char>::empty()));
        assert(!ls.last().contains(sep)) by {
            assert(ls[ls.len() - 1] == ls.last());
        }
        lemma_pieces_append(b, ls.last(), sep);
        assert(join(ls, seq![sep]) =~= b + ls.last());
        assert(Seq::<char>::empty() + ls.last() =~= ls.last());
        assert(pieces(join(ls, seq![sep]), sep) =~= ls);
    }
}

/// Leading whitespace of `m.push(c)`.
pub proof fn lemma_lead_ws_push(m: Seq<char>, c: char)
    ensures
        lead_ws(m) < m.len() ==> lead_ws(m.push(c)) == lead_ws(m),
        lead_ws(m) <= m.len(),
    decreases m.len(),
{
    if m.len() > 0 && is_ws(m[0]) {
        assert(m.push(c).drop_first() =~= m.drop_first().push(c));
        lemma_lead_ws_push(m.drop_first(), c);
    }
}

/// A whitespace-only text trims to nothing.
proof fn lemma_all_ws_lead(m: Seq<char>)
    ensures
        lead_ws(m) == m.len() ==> forall|i: int| 0 <= i < m.len() ==> is_ws(#[trigger] m[i]),
    decreases m.len(),
{
    if m.len() > 0 && is_ws(m[0]) {
        lemma_all_ws_lead(m.drop_first());
        assert forall|i: int| 0 <= i < m.len() && lead_ws(m) == m.len() implies is_ws(
            #[trigger] m[i],
        ) by {
            if i > 0 {
                assert(m.drop_first()[i - 1] == m[i]);
            }
        }
    }
}

proof fn lemma_lead_ws_all(m: Seq<char>)
    requires
        forall|i: int| 0 <= i < m.len() ==> is_ws(#[trigger] m[i]),
    ensures
        lead_ws(m) == m.len(),
    decreases m.len(),
{
    if m.len() > 0 {
        assert forall|i: int| 0 <= i < m.drop_first().len() implies is_ws(
            #[trigger] m.drop_first()[i],
        ) by {
            assert(m.drop_first()[i] == m[i + 1]);
        }
        lemma_lead_ws_all(m.drop_first());
    }
}

/// Removing one trailing whitespace character does not change the trim.
pub proof fn lemma_trim_drop_ws(m: Seq<char>, c: char)
    requires
        is_ws(c),
    ensures
        trim(m.push(c)) == trim(m),
{
    lemma_lead_ws_push(m, c);
    let s = m.push(c);
    if lead_ws(m) < m.len() {
        let a = lead_ws(m) as int;
        let t = m.skip(a);
        let t2 = s.skip(a);
        assert(t2 =~= t.push(c));
        assert(t2.drop_last() =~= t);
        assert(trail_ws(t2) == 1 + trail_ws(t));
        lemma_trail_ws_bound(t);
        assert(t2.take(t2.len() - trail_ws(t2)) =~= t.take(t.len() - trail_ws(t)));
    } else {
        lemma_all_ws_lead(m);
        assert forall|i: int| 0 <= i < s.len() implies is_ws(#[trigger] s[i]) by {
            if i < m.len() {
                assert(s[i] == m[i]);
            }
        }
        lemma_lead_ws_all(s);
        assert(trim(s) =~= Seq::<char>::empty());
        assert(trim(m) =~= Seq::<char>::empty());
    }
}

/// Trimming ignores the carriage return a line may keep.
pub proof fn lemma_trim_strip_cr(l: Seq<char>)
    ensures
        trim(strip_cr(l)) == trim(l),
{
    if l.len() > 0 && l.last() == '\r' {
        assert(l.drop_last().push('\r') =~= l);
        lemma_trim_drop_ws(l.drop_last(), '\r');
    }
}

} // verus!

verus! {

/// The last piece of a split is a suffix of the text.
pub proof fn lemma_last_piece_suffix<A>(s: Seq<A>, sep: A)
    ensures
        pieces(s, sep).last().len() <= s.len(),
        s.skip(s.len() - pieces(s, sep).last().len()) == pieces(s, sep).last(),
    decreases s.len(),
{
    lemma_pieces_nonempty(s, sep);
    if s.len() == 0 {
        assert(s.skip(0) =~= pieces(s, sep).last());
    } else {
        let pre = s.drop_last();
        lemma_last_piece_suffix(pre, sep);
        lemma_pieces_nonempty(pre, sep);
        if s.last() == sep {
            assert(s.skip(s.len() as int) =~= pieces(s, sep).last());
        } else {
            let pl = pieces(pre, sep).last();
            assert(pieces(s, sep).last() == pl.push(s.last()));
            assert(s.skip(s.len() - pl.len() - 1) =~= pre.skip(pre.len() - pl.len()).push(s.last()));
        }
    }
}

/// What occurs in a suffix occurs in the whole text.
pub proof fn lemma_has_sub_suffix(s: Seq<char>, k: int, n: Seq<char>)
    requires
        0 <= k <= s.len(),
        has_sub(s.skip(k), n),
    ensures
        has_sub(s, n),
{
    let t = s.skip(k);
    let i = choose|i: int| occurs_at(t, n, i);
    assert(s.subrange(i + k, i + k + n.len()) =~= t.subrange(i, i + n.len()));
    assert(occurs_at(s, n, i + k));
}

/// A suffix of a suffix is a suffix of the whole text.
pub proof fn lemma_has_suffix_suffix(s: Seq<char>, k: int, n: Seq<char>)
    requires
        0 <= k <= s.len(),
        has_suffix(s.skip(k), n),
    ensures
        has_suffix(s, n),
{
    let t = s.skip(k);
    assert(s.subrange(s.len() - n.len(), s.len() as int) =~= t.subrange(
        t.len() - n.len(),
        t.len() as int,
    ));
}

} // verus!

verus! {

/// No line of a text holds a line break.
pub proof fn lemma_lines_no_newline(s: Seq<char>)
    ensures
        forall|i: int| 0 <= i < lines(s).len() ==> !(#[trigger] lines(s)[i]).contains('\n'),
{
    let p = pieces(s, '\n');
    lemma_pieces_no_sep(s, '\n');
    lemma_pieces_nonempty(s, '\n');
    assert forall|i: int| 0 <= i < lines(s).len() implies !(#[trigger] lines(s)[i]).contains(
        '\n',
    ) by {
        if i < p.len() - 1 {
            let x = p[i];
            assert(lines(s)[i] == strip_cr(x));
            assert(!x.contains('\n'));
            if strip_cr(x).contains('\n') {
                let k = choose|k: int| 0 <= k < strip_cr(x).len() && strip_cr(x)[k] == '\n';
                assert(x[k] == '\n');
            }
        } else {
            assert(lines(s)[i] == p[p.len() - 1]);
        }
    }
}

/// Reading back lines joined with `\n`: each line read is the line written,
/// perhaps without a trailing carriage return.
pub proof fn lemma_lines_join(ks: Seq<Seq<char>>)
    requires
        forall|i: int| 0 <= i < ks.len() ==> !(#[trigger] ks[i]).contains('\n'),
    ensures
        lines(join(ks, "\n"@)).len() <= ks.len(),
        forall|i: int|
            0 <= i < lines(join(ks, "\n"@)).len() ==> #[trigger] lines(join(ks, "\n"@))[i] == ks[i]
                || lines(join(ks, "\n"@))[i] == strip_cr(ks[i]),
{
    reveal_strlit("\n");
    assert("\n"@ =~= seq!['\n']);
    let out = lines(join(ks, "\n"@));
    if ks.len() == 0 {
        assert(join(ks, "\n"@) =~= Seq::<char>::empty());
        assert(pieces(join(ks, "\n"@), '\n') =~= seq![Seq::<char>::empty()]);
        assert(out.len() == 0);
    } else {
        lemma_pieces_join(ks, '\n');
        assert(pieces(join(ks, "\n"@), '\n') == ks);
        assert forall|i: int| 0 <= i < out.len() implies #[trigger] out[i] == ks[i] || out[i]
            == strip_cr(ks[i]) by {
            if i < ks.len() - 1 {
                assert(out[i] == strip_cr(ks[i]));
            } else {
                assert(out[i] == ks[i]);
            }
        }
    }
}

/// What a filter keeps: every item of `flat_map(s, f)`, where `f` maps an
/// item to itself alone when `keep` holds of it and to nothing otherwise, is
/// an item of `s` of which `keep` holds.
pub proof fn lemma_flat_map_filter<A>(s: Seq<A>, f: spec_fn(A) -> Seq<A>, keep: spec_fn(A) -> bool)
    requires
        forall|x: A|
            #[trigger] f(x) == if keep(x) {
                seq![x]
            } else {
                Seq::<A>::empty()
            },
    ensures
        forall|j: int|
            0 <= j < flat_map(s, f).len() ==> keep(#[trigger] flat_map(s, f)[j]) && s.contains(
                flat_map(s, f)[j],
            ),
    decreases s.len(),
{
    if s.len() > 0 {
        let pre = s.drop_last();
        lemma_flat_map_filter(pre, f, keep);
        let a = flat_map(pre, f);
        let x = s.last();
        assert forall|j: int| 0 <= j < flat_map(s, f).len() implies keep(
            #[trigger] flat_map(s, f)[j],
        ) && s.contains(flat_map(s, f)[j]) by {
            if j < a.len() {
                assert(flat_map(s, f)[j] == a[j]);
                let i = choose|i: int| 0 <= i < pre.len() && pre[i] == a[j];
                assert(s[i] == pre[i]);
            } else {
                assert(f(x) == seq![x]);
                assert(flat_map(s, f)[j] == x);
                assert(s[s.len() - 1] == x);
            }
        }
    }
}

/// Every item that `f` maps to something shows its results in
/// `flat_map(s, f)`.
pub proof fn lemma_flat_map_contains<A, B>(s: Seq<A>, f: spec_fn(A) -> Seq<B>, i: int, k: int)
    requires
        0 <= i < s.len(),
        0 <= k < f(s[i]).len(),
    ensures
        flat_map(s, f).contains(f(s[i])[k]),
    decreases s.len(),
{
    let pre = s.drop_last();
    let a = flat_map(pre, f);
    if i < s.len() - 1 {
        assert(pre[i] == s[i]);
        lemma_flat_map_contains(pre, f, i, k);
        let j = choose|j: int| 0 <= j < a.len() && a[j] == f(s[i])[k];
        assert(flat_map(s, f)[j] == a[j]);
    } else {
        assert(s.last() == s[i]);
        assert(flat_map(s, f)[a.len() + k] == f(s[i])[k]);
    }
}

} // verus!
