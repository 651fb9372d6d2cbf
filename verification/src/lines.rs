//! Reading tool output: splitting text into lines the way `str::lines` does,
//! trimming, searching, counting, and ordering strings the way `String`
//! orders them.
use vstd::prelude::*;

verus! {

/// `p` without one trailing carriage return.
pub open spec fn strip_cr(p: Seq<char>) -> Seq<char> {
    if p.len() > 0 && p.last() == '\r' {
        p.drop_last()
    } else {
        p
    }
}

/// The lines of `s[start..]`, scanning from `i`: a line ends at a line feed,
/// a carriage return just before it belongs to the line ending, and a final
/// line ending does not start an empty line.
pub open spec fn lines_from(s: Seq<char>, start: int, i: int) -> Seq<Seq<char>>
    decreases s.len() - i,
{
    if i >= s.len() {
        if start < s.len() {
            seq![s.subrange(start, s.len() as int)]
        } else {
            Seq::empty()
        }
    } else if s[i] == '\n' {
        seq![strip_cr(s.subrange(start, i))] + lines_from(s, i + 1, i + 1)
    } else {
        lines_from(s, start, i + 1)
    }
}

/// The lines of `s`, as `str::lines` yields them.
pub open spec fn lines_of(s: Seq<char>) -> Seq<Seq<char>> {
    lines_from(s, 0, 0)
}

pub fn copy_range(s: &[char], start: usize, end: usize) -> (r: Vec<char>)
    requires
        start <= end <= s@.len(),
    ensures
        r@ == s@.subrange(start as int, end as int),
{
    let mut r: Vec<char> = Vec::new();
    let mut k = start;
    while k < end
        invariant
            start <= k <= end <= s@.len(),
            r@ == s@.subrange(start as int, k as int),
        decreases end - k,
    {
        r.push(s[k]);
        k = k + 1;
        assert(r@ =~= s@.subrange(start as int, k as int));
    }
    r
}

/// The lines of `s`.
pub fn split_lines(s: &[char]) -> (r: Vec<Vec<char>>)
    ensures
        r@.map_values(|l: Vec<char>| l@) == lines_of(s@),
{
    let n = s.len();
    let mut r: Vec<Vec<char>> = Vec::new();
    let mut start: usize = 0;
    let mut i: usize = 0;
    while i < n
        invariant
            n == s@.len(),
            start <= i <= n,
            lines_of(s@) == r@.map_values(|l: Vec<char>| l@) + lines_from(
                s@,
                start as int,
                i as int,
            ),
        decreases n - i,
    {
        if s[i] == '\n' {
            let mut line = copy_range(s, start, i);
            if line.len() > 0 && line[line.len() - 1] == '\r' {
                line.pop();
            }
            let ghost before = r@.map_values(|l: Vec<char>| l@);
            assert(line@ == strip_cr(s@.subrange(start as int, i as int)));
            r.push(line);
            assert(r@.map_values(|l: Vec<char>| l@) =~= before.push(
                strip_cr(s@.subrange(start as int, i as int)),
            ));
            assert(before + (seq![strip_cr(s@.subrange(start as int, i as int))] + lines_from(
                s@,
                i + 1,
                i + 1,
            )) =~= before.push(strip_cr(s@.subrange(start as int, i as int))) + lines_from(
                s@,
                i + 1,
                i + 1,
            ));
            start = i + 1;
        }
        i = i + 1;
    }
    if start < n {
        let line = copy_range(s, start, n);
        let ghost before = r@.map_values(|l: Vec<char>| l@);
        r.push(line);
        assert(r@.map_values(|l: Vec<char>| l@) =~= before + seq![s@.subrange(start as int, n as int)]);
    } else {
        assert(r@.map_values(|l: Vec<char>| l@) =~= r@.map_values(|l: Vec<char>| l@) + Seq::<
            Seq<char>,
        >::empty());
    }
    r
}

/// The characters `str::trim` removes: Unicode `White_Space`.
pub open spec fn is_white_space(c: char) -> bool {
    c == ' ' || ('\t' <= c && c <= '\r') || c == '\u{85}' || c == '\u{a0}' || c == '\u{1680}' || (
    '\u{2000}' <= c && c <= '\u{200a}') || c == '\u{2028}' || c == '\u{2029}' || c == '\u{202f}'
        || c == '\u{205f}' || c == '\u{3000}'
}

fn white_space(c: char) -> (r: bool)
    ensures
        r == is_white_space(c),
{
    c == ' ' || ('\t' <= c && c <= '\r') || c == '\u{85}' || c == '\u{a0}' || c == '\u{1680}' || (
    '\u{2000}' <= c && c <= '\u{200a}') || c == '\u{2028}' || c == '\u{2029}' || c == '\u{202f}'
        || c == '\u{205f}' || c == '\u{3000}'
}

/// `s` without its leading white space.
pub open spec fn trim_start(s: Seq<char>) -> Seq<char>
    decreases s.len(),
{
    if s.len() > 0 && is_white_space(s[0]) {
        trim_start(s.skip(1))
    } else {
        s
    }
}

/// `s` without its trailing white space.
pub open spec fn trim_end(s: Seq<char>) -> Seq<char>
    decreases s.len(),
{
    if s.len() > 0 && is_white_space(s.last()) {
        trim_end(s.drop_last())
    } else {
        s
    }
}

/// `s` without white space at either end, as `str::trim` leaves it.
pub open spec fn trim(s: Seq<char>) -> Seq<char> {
    trim_end(trim_start(s))
}

proof fn lemma_trim_start_skip(s: Seq<char>, i: int)
    requires
        0 <= i <= s.len(),
        forall|j: int| 0 <= j < i ==> is_white_space(#[trigger] s[j]),
    ensures
        trim_start(s) == trim_start(s.skip(i)),
    decreases i,
{
    if i > 0 {
        assert(s.skip(1).skip(i - 1) =~= s.skip(i));
        assert forall|j: int| 0 <= j < i - 1 implies is_white_space(#[trigger] s.skip(1)[j]) by {
            assert(s.skip(1)[j] == s[j + 1]);
        }
        lemma_trim_start_skip(s.skip(1), i - 1);
    } else {
        assert(s.skip(0) =~= s);
    }
}

proof fn lemma_trim_end_take(s: Seq<char>, e: int)
    requires
        0 <= e <= s.len(),
        forall|j: int| e <= j < s.len() ==> is_white_space(#[trigger] s[j]),
    ensures
        trim_end(s) == trim_end(s.take(e)),
    decreases s.len() - e,
{
    if e < s.len() {
        assert(s.drop_last().take(e) =~= s.take(e));
        lemma_trim_end_take(s.drop_last(), e);
    } else {
        assert(s.take(e) =~= s);
    }
}

/// The bounds of `s` trimmed of white space at both ends.
pub fn trim_bounds(s: &[char]) -> (r: (usize, usize))
    ensures
        r.0 <= r.1 <= s@.len(),
        s@.subrange(r.0 as int, r.1 as int) == trim(s@),
{
    let n = s.len();
    let mut a: usize = 0;
    while a < n && white_space(s[a])
        invariant
            a <= n == s@.len(),
            forall|j: int| 0 <= j < a ==> is_white_space(#[trigger] s@[j]),
        decreases n - a,
    {
        a = a + 1;
    }
    proof {
        lemma_trim_start_skip(s@, a as int);
        let u = s@.skip(a as int);
        assert(u.len() == 0 || !is_white_space(u[0]));
        assert(trim_start(u) == u);
    }
    let mut b: usize = n;
    while b > a && white_space(s[b - 1])
        invariant
            a <= b <= n == s@.len(),
            forall|j: int| b <= j < n ==> is_white_space(#[trigger] s@[j]),
        decreases b,
    {
        b = b - 1;
    }
    proof {
        let u = s@.skip(a as int);
        let k = (b - a) as int;
        assert forall|j: int| k <= j < u.len() implies is_white_space(#[trigger] u[j]) by {
            assert(u[j] == s@[j + a]);
        }
        lemma_trim_end_take(u, k);
        let w = u.take(k);
        assert(w =~= s@.subrange(a as int, b as int));
        if w.len() > 0 {
            assert(w.last() == s@[b - 1]);
        }
        assert(trim_end(w) == w);
    }
    (a, b)
}

/// The first index from `i` on where `pat` occurs in `s`.
pub open spec fn find_from(s: Seq<char>, pat: Seq<char>, i: int) -> Option<int>
    decreases s.len() - i,
{
    if i < 0 || i + pat.len() > s.len() {
        None
    } else if s.subrange(i, i + pat.len()) == pat {
        Some(i)
    } else if i >= s.len() {
        None
    } else {
        find_from(s, pat, i + 1)
    }
}

/// Whether `pat` occurs in `s` at index `i`.
fn occurs_at(s: &[char], pat: &[char], i: usize) -> (r: bool)
    requires
        i + pat@.len() <= s@.len(),
    ensures
        r == (s@.subrange(i as int, i + pat@.len()) == pat@),
{
    let n = s.len();
    let mut k: usize = 0;
    while k < pat.len()
        invariant
            n == s@.len(),
            i + pat@.len() <= s@.len(),
            k <= pat@.len(),
            forall|j: int| 0 <= j < k ==> #[trigger] s@.subrange(i as int, i + pat@.len())[j] == pat@[j],
        decreases pat@.len() - k,
    {
        assert(i + k < s@.len());
        if s[i + k] != pat[k] {
            assert(s@.subrange(i as int, i + pat@.len())[k as int] != pat@[k as int]);
            return false;
        }
        assert(s@.subrange(i as int, i + pat@.len())[k as int] == pat@[k as int]);
        k = k + 1;
    }
    assert(s@.subrange(i as int, i + pat@.len()) =~= pat@);
    true
}

/// The first occurrence of `pat` in `s`.
pub fn find(s: &[char], pat: &[char]) -> (r: Option<usize>)
    ensures
        r matches Some(k) ==> k + pat@.len() <= s@.len(),
        match r {
            Some(k) => find_from(s@, pat@, 0) == Some(k as int),
            None => find_from(s@, pat@, 0) is None,
        },
{
    if pat.len() > s.len() {
        return None;
    }
    if pat.len() == 0 {
        assert(s@.subrange(0, 0) =~= pat@);
        return Some(0);
    }
    let n = s.len();
    let last = n - pat.len();
    let mut i: usize = 0;
    while i <= last
        invariant
            n == s@.len(),
            pat@.len() >= 1,
            last + pat@.len() == s@.len(),
            i <= last + 1,
            find_from(s@, pat@, 0) == find_from(s@, pat@, i as int),
        decreases last + 1 - i,
    {
        if occurs_at(s, pat, i) {
            return Some(i);
        }
        i = i + 1;
    }
    None
}

/// The longest prefix of `s` made of ASCII digits.
pub open spec fn digit_prefix(s: Seq<char>) -> Seq<char>
    decreases s.len(),
{
    if s.len() > 0 && '0' <= s[0] && s[0] <= '9' {
        seq![s[0]] + digit_prefix(s.skip(1))
    } else {
        Seq::empty()
    }
}

/// The ASCII digits at the start of `s[from..]`.
pub fn digits_at(s: &[char], from: usize) -> (r: Vec<char>)
    requires
        from <= s@.len(),
    ensures
        r@ == digit_prefix(s@.skip(from as int)),
{
    let mut k = from;
    while k < s.len() && '0' <= s[k] && s[k] <= '9'
        invariant
            from <= k <= s@.len(),
            digit_prefix(s@.skip(from as int)) == s@.subrange(from as int, k as int)
                + digit_prefix(s@.skip(k as int)),
        decreases s@.len() - k,
    {
        assert(s@.skip(k as int).skip(1) =~= s@.skip(k + 1));
        assert(s@.subrange(from as int, k as int) + seq![s@[k as int]] =~= s@.subrange(
            from as int,
            k + 1,
        ));
        k = k + 1;
    }
    assert(s@.subrange(from as int, k as int) + Seq::<char>::empty() =~= s@.subrange(
        from as int,
        k as int,
    ));
    copy_range(s, from, k)
}

/// How many times `x` occurs in `s`.
pub open spec fn count_of(s: Seq<Seq<char>>, x: Seq<char>) -> nat
    decreases s.len(),
{
    if s.len() == 0 {
        0
    } else {
        count_of(s.drop_last(), x) + (if s.last() == x {
            1nat
        } else {
            0nat
        })
    }
}

/// `String`'s order on character sequences: lexicographic by code point.
pub open spec fn lex_lt(a: Seq<char>, b: Seq<char>) -> bool
    decreases a.len(),
{
    if a.len() == 0 {
        b.len() > 0
    } else if b.len() == 0 {
        false
    } else if a[0] != b[0] {
        a[0] < b[0]
    } else {
        lex_lt(a.skip(1), b.skip(1))
    }
}

/// `a` comes no later than `b`.
pub open spec fn lex_le(a: Seq<char>, b: Seq<char>) -> bool {
    !lex_lt(b, a)
}

pub proof fn lemma_lex_total(a: Seq<char>, b: Seq<char>)
    ensures
        a == b || lex_lt(a, b) || lex_lt(b, a),
        !(lex_lt(a, b) && lex_lt(b, a)),
        !lex_lt(a, a),
    decreases a.len(),
{
    if a.len() == 0 && b.len() == 0 {
        assert(a =~= b);
    } else if a.len() > 0 && b.len() > 0 {
        lemma_lex_total(a.skip(1), a.skip(1));
        if a[0] == b[0] {
            lemma_lex_total(a.skip(1), b.skip(1));
            if a.skip(1) == b.skip(1) {
                assert(a =~= seq![a[0]] + a.skip(1));
                assert(b =~= seq![b[0]] + b.skip(1));
            }
        }
    } else if a.len() > 0 {
        lemma_lex_total(a.skip(1), a.skip(1));
    }
}

pub proof fn lemma_lex_trans(a: Seq<char>, b: Seq<char>, c: Seq<char>)
    requires
        lex_lt(a, b),
        lex_lt(b, c),
    ensures
        lex_lt(a, c),
    decreases a.len(),
{
    if a.len() > 0 && b.len() > 0 && c.len() > 0 && a[0] == b[0] && b[0] == c[0] {
        lemma_lex_trans(a.skip(1), b.skip(1), c.skip(1));
    }
}

/// Whether `a` sorts before `b`.
pub fn str_lt(a: &str, b: &str) -> (r: bool)
    ensures
        r == lex_lt(a@, b@),
{
    let x = crate::text::chars_of(a);
    let y = crate::text::chars_of(b);
    let mut k: usize = 0;
    assert(a@.skip(0) =~= a@);
    assert(b@.skip(0) =~= b@);
    while k < x.len() && k < y.len() && x[k] == y[k]
        invariant
            k <= x@.len(),
            k <= y@.len(),
            x@ == a@,
            y@ == b@,
            lex_lt(a@, b@) == lex_lt(a@.skip(k as int), b@.skip(k as int)),
        decreases x@.len() - k,
    {
        assert(a@.skip(k as int).skip(1) =~= a@.skip(k + 1));
        assert(b@.skip(k as int).skip(1) =~= b@.skip(k + 1));
        k = k + 1;
    }
    if k == x.len() {
        k < y.len()
    } else if k == y.len() {
        false
    } else {
        x[k] < y[k]
    }
}

/// The character sequences of a list of strings.
pub open spec fn views(v: Seq<String>) -> Seq<Seq<char>> {
    v.map_values(|s: String| s@)
}

/// `items` separated by `sep`.
pub open spec fn joined(items: Seq<Seq<char>>, sep: Seq<char>) -> Seq<char>
    decreases items.len(),
{
    if items.len() == 0 {
        Seq::empty()
    } else if items.len() == 1 {
        items[0]
    } else {
        joined(items.drop_last(), sep) + sep + items.last()
    }
}

/// The strings of `v` separated by `sep`.
pub fn join(v: &Vec<String>, sep: &str) -> (r: String)
    ensures
        r@ == joined(views(v@), sep@),
{
    let mut r = String::new();
    let mut i: usize = 0;
    while i < v.len()
        invariant
            i <= v@.len(),
            r@ == joined(views(v@).take(i as int), sep@),
        decreases v@.len() - i,
    {
        let ghost t = views(v@).take(i + 1);
        assert(t.drop_last() =~= views(v@).take(i as int));
        if i == 0 {
            r = v[0].clone();
        } else {
            r = r.concat(sep).concat(v[i].as_str());
        }
        i = i + 1;
    }
    assert(views(v@).take(v@.len() as int) =~= views(v@));
    r
}

/// Whether `s` is in ascending order.
pub open spec fn ascending(s: Seq<Seq<char>>) -> bool {
    forall|i: int, j: int| 0 <= i < j < s.len() ==> lex_le(#[trigger] s[i], #[trigger] s[j])
}

/// `v` sorted in ascending order.
pub fn sort_strings(v: Vec<String>) -> (r: Vec<String>)
    ensures
        ascending(views(r@)),
        views(r@).to_multiset() == views(v@).to_multiset(),
{
    let mut r: Vec<String> = Vec::new();
    let mut i: usize = 0;
    let n = v.len();
    assert(views(r@) =~= views(v@).take(0));
    while i < n
        invariant
            n == v@.len(),
            i <= n,
            ascending(views(r@)),
            views(r@).to_multiset() == views(v@).take(i as int).to_multiset(),
        decreases n - i,
    {
        let x = v[i].clone();
        let mut p: usize = 0;
        while p < r.len() && !str_lt(x.as_str(), r[p].as_str())
            invariant
                p <= r@.len(),
                forall|j: int| 0 <= j < p ==> lex_le(#[trigger] views(r@)[j], x@),
            decreases r@.len() - p,
        {
            proof {
                lemma_lex_total(x@, r@[p as int]@);
            }
            p = p + 1;
        }
        let ghost old_r = views(r@);
        r.insert(p, x);
        proof {
            assert(views(r@) =~= old_r.insert(p as int, v@[i as int]@));
            assert forall|a: int, b: int| 0 <= a < b < views(r@).len() implies lex_le(
                #[trigger] views(r@)[a],
                #[trigger] views(r@)[b],
            ) by {
                let s = views(r@);
                if a < p && b == p {
                } else if a == p && b > p {
                    assert(s[b] == old_r[b - 1]);
                    assert(lex_lt(x@, old_r[p as int]) || b - 1 == p as int || true);
                    if b - 1 > p {
                        assert(lex_le(old_r[p as int], old_r[b - 1]));
                        lemma_lex_total(x@, old_r[p as int]);
                        lemma_lex_total(old_r[p as int], old_r[b - 1]);
                        if lex_lt(old_r[b - 1], x@) {
                            if lex_lt(old_r[b - 1], old_r[p as int]) {
                            } else {
                                lemma_lex_trans(old_r[b - 1], x@, old_r[p as int]);
                            }
                        }
                    } else {
                        lemma_lex_total(x@, old_r[p as int]);
                    }
                } else if a < p && b > p {
                    assert(s[a] == old_r[a]);
                    assert(s[b] == old_r[b - 1]);
                } else if b < p {
                } else {
                    assert(s[a] == old_r[a - 1]);
                    assert(s[b] == old_r[b - 1]);
                }
            }
            vstd::seq_lib::to_multiset_insert(old_r, p as int, v@[i as int]@);
            assert(views(v@).take(i + 1) =~= views(v@).take(i as int).push(v@[i as int]@));
            vstd::seq_lib::to_multiset_build(views(v@).take(i as int), v@[i as int]@);
        }
        i = i + 1;
    }
    assert(views(v@).take(n as int) =~= views(v@));
    r
}

} // verus!
