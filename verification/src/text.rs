//! Character-level text helpers with their specifications: whitespace,
//! trimming, splitting on a separator, and building strings from characters.

use vstd::prelude::*;

verus! {

broadcast use vstd::string::group_string_axioms;

/// Unicode's `White_Space` property, the one `char::is_whitespace` tests.
pub open spec fn is_white_space(c: char) -> bool {
    let u = c as u32;
    ||| 0x09 <= u <= 0x0d
    ||| u == 0x20
    ||| u == 0x85
    ||| u == 0xa0
    ||| u == 0x1680
    ||| 0x2000 <= u <= 0x200a
    ||| u == 0x2028
    ||| u == 0x2029
    ||| u == 0x202f
    ||| u == 0x205f
    ||| u == 0x3000
}

/// `s` without its leading whitespace.
pub open spec fn trim_start(s: Seq<char>) -> Seq<char>
    decreases s.len(),
{
    if s.len() > 0 && is_white_space(s[0]) {
        trim_start(s.drop_first())
    } else {
        s
    }
}

/// `s` without its trailing whitespace.
pub open spec fn trim_end(s: Seq<char>) -> Seq<char>
    decreases s.len(),
{
    if s.len() > 0 && is_white_space(s.last()) {
        trim_end(s.drop_last())
    } else {
        s
    }
}

/// `s` without leading and trailing whitespace, as `str::trim` gives it.
pub open spec fn trim(s: Seq<char>) -> Seq<char> {
    trim_end(trim_start(s))
}

/// The pieces of `s` between occurrences of `sep`, in order, as `str::split`
/// with a character pattern yields them: `n` separators give `n + 1` pieces,
/// empty ones included.
pub open spec fn split(s: Seq<char>, sep: char) -> Seq<Seq<char>>
    decreases s.len(),
{
    if s.len() == 0 {
        seq![Seq::empty()]
    } else {
        let prev = split(s.drop_last(), sep);
        if s.last() == sep {
            prev.push(Seq::empty())
        } else {
            prev.update(prev.len() - 1, prev.last().push(s.last()))
        }
    }
}

/// An optional string as a plain value.
pub open spec fn opt_view(o: Option<String>) -> Option<Seq<char>> {
    match o {
        Some(s) => Some(s@),
        None => None,
    }
}

/// The views of a sequence of strings.
pub open spec fn string_views(s: Seq<String>) -> Seq<Seq<char>> {
    s.map_values(|x: String| x@)
}

/// The views of a sequence of character vectors.
pub open spec fn views(s: Seq<Vec<char>>) -> Seq<Seq<char>> {
    s.map_values(|p: Vec<char>| p@)
}

proof fn lemma_trim_start_skip(s: Seq<char>, i: int)
    requires
        0 <= i <= s.len(),
        forall|k: int| 0 <= k < i ==> is_white_space(#[trigger] s[k]),
        i == s.len() || !is_white_space(s[i]),
    ensures
        trim_start(s) == s.skip(i),
    decreases i,
{
    if i > 0 {
        assert(s.drop_first().skip(i - 1) =~= s.skip(i));
        lemma_trim_start_skip(s.drop_first(), i - 1);
    } else {
        assert(s.skip(0) =~= s);
    }
}

proof fn lemma_trim_end_take(s: Seq<char>, j: int)
    requires
        0 <= j <= s.len(),
        forall|k: int| j <= k < s.len() ==> is_white_space(#[trigger] s[k]),
        j == 0 || !is_white_space(s[j - 1]),
    ensures
        trim_end(s) == s.take(j),
    decreases s.len() - j,
{
    if j < s.len() {
        assert(s.drop_last().take(j) =~= s.take(j));
        lemma_trim_end_take(s.drop_last(), j);
    } else {
        assert(s.take(j) =~= s);
    }
}

proof fn lemma_trim_start_head(s: Seq<char>)
    ensures
        trim_start(s).len() > 0 ==> !is_white_space(trim_start(s)[0]),
    decreases s.len(),
{
    if s.len() > 0 && is_white_space(s[0]) {
        lemma_trim_start_head(s.drop_first());
    }
}

proof fn lemma_trim_end_shape(s: Seq<char>)
    ensures
        trim_end(s).len() <= s.len(),
        trim_end(s) == s.take(trim_end(s).len() as int),
        trim_end(s).len() > 0 ==> !is_white_space(trim_end(s).last()),
    decreases s.len(),
{
    if s.len() > 0 && is_white_space(s.last()) {
        lemma_trim_end_shape(s.drop_last());
        assert(s.drop_last().take(trim_end(s).len() as int) =~= s.take(trim_end(s).len() as int));
    } else {
        assert(s.take(s.len() as int) =~= s);
    }
}

/// Trimming twice is trimming once: what `trim` gives has no leading or
/// trailing whitespace.
pub proof fn lemma_trim_idempotent(s: Seq<char>)
    ensures
        trim(trim(s)) == trim(s),
{
    let u = trim_start(s);
    let t = trim_end(u);
    lemma_trim_start_head(s);
    lemma_trim_end_shape(u);
    if t.len() > 0 {
        assert(t[0] == u[0]);
        assert(trim_start(t) == t);
    } else {
        assert(trim_start(t) == t);
    }
}

/// Whether `c` is whitespace, as `char::is_whitespace` answers.
pub fn is_whitespace(c: char) -> (b: bool)
    ensures
        b == is_white_space(c),
{
    let u = c as u32;
    (0x09 <= u && u <= 0x0d) || u == 0x20 || u == 0x85 || u == 0xa0 || u == 0x1680 || (0x2000
        <= u && u <= 0x200a) || u == 0x2028 || u == 0x2029 || u == 0x202f || u == 0x205f || u
        == 0x3000
}

/// The characters of a string, in order.
pub fn chars_of(s: &str) -> (v: Vec<char>)
    ensures
        v@ == s@,
{
    let mut v: Vec<char> = Vec::new();
    for c in it: s.chars()
        invariant
            v@ == it.seq().take(it.index()),
            it.seq() == s@,
    {
        v.push(c);
    }
    v
}

/// Appends `c` to `s` (`String::push`).
#[verifier::external_body]
fn push_char(s: &mut String, c: char)
    ensures
        final(s)@ == old(s)@.push(c),
{
    s.push(c);
}

/// The string made of the characters `cs`, in order.
pub fn string_of(cs: &[char]) -> (s: String)
    ensures
        s@ == cs@,
{
    let mut s = String::new();
    for i in 0..cs.len()
        invariant
            s@ == cs@.take(i as int),
    {
        push_char(&mut s, cs[i]);
        assert(cs@.take(i + 1) =~= cs@.take(i as int).push(cs@[i as int]));
    }
    assert(cs@.take(cs@.len() as int) =~= cs@);
    s
}

/// Whether two strings hold the same characters.
pub fn same_text(a: &str, b: &str) -> (eq: bool)
    ensures
        eq == (a@ == b@),
{
    let x = chars_of(a);
    let y = chars_of(b);
    if x.len() != y.len() {
        return false;
    }
    for i in 0..x.len()
        invariant
            x@ == a@,
            y@ == b@,
            x.len() == y.len(),
            forall|k: int| 0 <= k < i ==> x@[k] == y@[k],
    {
        if x[i] != y[i] {
            return false;
        }
    }
    assert(x@ =~= y@);
    true
}

/// The characters of `cs` without leading and trailing whitespace.
pub fn trim_chars(cs: &[char]) -> (r: Vec<char>)
    ensures
        r@ == trim(cs@),
{
    let n = cs.len();
    let mut i: usize = 0;
    while i < n && is_whitespace(cs[i])
        invariant
            i <= n,
            n == cs@.len(),
            forall|k: int| 0 <= k < i ==> is_white_space(#[trigger] cs@[k]),
        decreases n - i,
    {
        i = i + 1;
    }
    proof {
        lemma_trim_start_skip(cs@, i as int);
    }
    let mut j: usize = n;
    while j > i && is_whitespace(cs[j - 1])
        invariant
            i <= j <= n,
            n == cs@.len(),
            forall|k: int| j <= k < n ==> is_white_space(#[trigger] cs@[k]),
        decreases j,
    {
        j = j - 1;
    }
    let ghost t = cs@.skip(i as int);
    proof {
        assert forall|k: int| j - i <= k < t.len() implies is_white_space(#[trigger] t[k]) by {
            assert(t[k] == cs@[k + i]);
        }
        if j > i {
            assert(t[j - i - 1] == cs@[j - 1]);
        }
        lemma_trim_end_take(t, j - i);
    }
    let mut r: Vec<char> = Vec::new();
    let mut k: usize = i;
    while k < j
        invariant
            i <= k <= j <= n,
            n == cs@.len(),
            r@ == cs@.subrange(i as int, k as int),
        decreases j - k,
    {
        r.push(cs[k]);
        assert(cs@.subrange(i as int, k + 1) =~= cs@.subrange(i as int, k as int).push(
            cs@[k as int],
        ));
        k = k + 1;
    }
    assert(r@ =~= t.take(j - i));
    r
}

/// The pieces of `cs` between occurrences of `sep` (see [`split`]).
pub fn split_chars(cs: &[char], sep: char) -> (r: Vec<Vec<char>>)
    ensures
        views(r@) == split(cs@, sep),
        r@.len() >= 1,
{
    let mut pieces: Vec<Vec<char>> = Vec::new();
    let mut cur: Vec<char> = Vec::new();
    let n = cs.len();
    assert(cs@.take(0) =~= Seq::<char>::empty());
    assert(views(pieces@).push(cur@) =~= split(cs@.take(0), sep));
    for i in 0..n
        invariant
            n == cs@.len(),
            views(pieces@).push(cur@) == split(cs@.take(i as int), sep),
    {
        let ghost prev = split(cs@.take(i as int), sep);
        assert(cs@.take(i + 1).drop_last() =~= cs@.take(i as int));
        let c = cs[i];
        if c == sep {
            let done = cur;
            pieces.push(done);
            cur = Vec::new();
            assert(views(pieces@).push(cur@) =~= prev.push(Seq::empty()));
        } else {
            cur.push(c);
            assert(views(pieces@).push(cur@) =~= prev.update(
                prev.len() - 1,
                prev.last().push(c),
            ));
        }
    }
    assert(cs@.take(n as int) =~= cs@);
    pieces.push(cur);
    assert(views(pieces@) =~= split(cs@, sep));
    pieces
}

/// Name-value pairs as plain values.
pub open spec fn pair_views(s: Seq<(String, String)>) -> Seq<(Seq<char>, Seq<char>)> {
    s.map_values(|p: (String, String)| (p.0@, p.1@))
}

/// The value of the last pair named `key`: what a map filled from `pairs` in
/// order holds for `key`, a later pair replacing an earlier one.
pub open spec fn last_value(pairs: Seq<(Seq<char>, Seq<char>)>, key: Seq<char>) -> Option<Seq<char>>
    decreases pairs.len(),
{
    if pairs.len() == 0 {
        None
    } else if pairs.last().0 == key {
        Some(pairs.last().1)
    } else {
        last_value(pairs.drop_last(), key)
    }
}

/// The value of the last pair named `key` (see [`last_value`]).
pub fn lookup_last(pairs: &Vec<(String, String)>, key: &str) -> (v: Option<String>)
    ensures
        match v {
            Some(x) => last_value(pair_views(pairs@), key@) == Some(x@),
            None => last_value(pair_views(pairs@), key@) is None,
        },
{
    let mut found: Option<String> = None;
    for i in 0..pairs.len()
        invariant
            match found {
                Some(x) => last_value(pair_views(pairs@.take(i as int)), key@) == Some(x@),
                None => last_value(pair_views(pairs@.take(i as int)), key@) is None,
            },
    {
        assert(pair_views(pairs@.take(i + 1)).drop_last() =~= pair_views(pairs@.take(i as int)));
        if same_text(pairs[i].0.as_str(), key) {
            found = Some(pairs[i].1.clone());
        }
    }
    assert(pairs@.take(pairs@.len() as int) =~= pairs@);
    found
}

/// Whether `list` holds the text `s`.
pub fn contains_text(list: &Vec<String>, s: &str) -> (b: bool)
    ensures
        b == string_views(list@).contains(s@),
{
    for i in 0..list.len()
        invariant
            forall|k: int| 0 <= k < i ==> list@[k]@ != s@,
    {
        if same_text(list[i].as_str(), s) {
            assert(string_views(list@)[i as int] == s@);
            return true;
        }
    }
    proof {
        if string_views(list@).contains(s@) {
            let k = choose|k: int|
                0 <= k < list@.len() && #[trigger] string_views(list@)[k] == s@;
            assert(list@[k]@ == s@);
        }
    }
    false
}

/// The upper-case hexadecimal digit of `d` (below 16).
pub open spec fn hex_digit(d: u8) -> char {
    (if d < 10 {
        48 + d
    } else {
        55 + d
    }) as char
}

/// `%` followed by the two upper-case hexadecimal digits of `b`.
pub open spec fn percent_byte(b: u8) -> Seq<char> {
    seq!['%', hex_digit(b / 16), hex_digit(b % 16)]
}

/// An ASCII letter or digit.
pub open spec fn ascii_alphanumeric(b: u8) -> bool {
    (48 <= b <= 57) || (65 <= b <= 90) || (97 <= b <= 122)
}

/// The pieces `ps` joined back together with `sep` between them.
pub open spec fn join(ps: Seq<Seq<char>>, sep: char) -> Seq<char>
    decreases ps.len(),
{
    if ps.len() == 0 {
        Seq::empty()
    } else if ps.len() == 1 {
        ps[0]
    } else {
        join(ps.drop_last(), sep) + seq![sep] + ps.last()
    }
}

/// `t` is `x` with whitespace taken off both ends: a stretch of `x` that
/// neither starts nor ends with whitespace, with only whitespace around it.
pub open spec fn trimmed_from(x: Seq<char>, t: Seq<char>) -> bool {
    exists|p: int, q: int|
        {
            &&& 0 <= p <= q <= x.len()
            &&& t == #[trigger] x.subrange(p, q)
            &&& forall|k: int| 0 <= k < p ==> is_white_space(#[trigger] x[k])
            &&& forall|k: int| q <= k < x.len() ==> is_white_space(#[trigger] x[k])
            &&& p < q ==> !is_white_space(x[p]) && !is_white_space(x[q - 1])
        }
}

proof fn lemma_split_nonempty(s: Seq<char>, sep: char)
    ensures
        split(s, sep).len() >= 1,
    decreases s.len(),
{
    if s.len() > 0 {
        lemma_split_nonempty(s.drop_last(), sep);
    }
}

/// Splitting is undone by joining: the pieces hold no separator, and joined
/// back with it they give the text again.
pub proof fn lemma_split_join(s: Seq<char>, sep: char)
    ensures
        join(split(s, sep), sep) == s,
        forall|i: int| 0 <= i < split(s, sep).len() ==> !(#[trigger] split(s, sep)[i]).contains(sep),
    decreases s.len(),
{
    if s.len() == 0 {
        assert(split(s, sep) =~= seq![Seq::<char>::empty()]);
        assert(join(split(s, sep), sep) =~= s);
    } else {
        let p = s.drop_last();
        let c = s.last();
        lemma_split_join(p, sep);
        lemma_split_nonempty(p, sep);
        let prev = split(p, sep);
        let cur = split(s, sep);
        if c == sep {
            assert(cur.drop_last() =~= prev);
            assert(join(cur, sep) =~= s);
            assert forall|i: int| 0 <= i < cur.len() implies !(#[trigger] cur[i]).contains(sep) by {
                if i < prev.len() {
                    assert(cur[i] == prev[i]);
                } else {
                    assert(cur[i] =~= Seq::<char>::empty());
                }
            }
        } else {
            let n = prev.len();
            assert(cur[n - 1] == prev[n - 1].push(c));
            if n == 1 {
                assert(cur.len() == 1);
                assert(join(prev, sep) == prev[0]);
                assert(join(cur, sep) == cur[0]);
                assert(cur[0] == prev[0].push(c));
                assert(prev[0] == p);
                assert(s =~= p.push(c));
                assert(join(cur, sep) =~= s);
            } else {
                assert(cur.drop_last() =~= prev.drop_last());
                let a = join(prev.drop_last(), sep);
                assert(cur.last() == prev.last().push(c));
                assert(join(cur, sep) == a + seq![sep] + prev.last().push(c));
                assert(join(prev, sep) == a + seq![sep] + prev.last());
                assert((a + seq![sep] + prev.last()).push(c) =~= a + seq![sep] + prev.last().push(c));
                assert(s =~= p.push(c));
                assert(join(cur, sep) =~= s);
            }
            assert forall|i: int| 0 <= i < cur.len() implies !(#[trigger] cur[i]).contains(sep) by {
                if i < n - 1 {
                    assert(cur[i] == prev[i]);
                } else {
                    let x = prev[n - 1];
                    assert(!x.contains(sep));
                    if cur[i].contains(sep) {
                        let k = choose|k: int| 0 <= k < cur[i].len() && cur[i][k] == sep;
                        assert(cur[i][k] == x.push(c)[k]);
                        if k < x.len() {
                            assert(x[k] == sep);
                        }
                    }
                }
            }
        }
    }
}

proof fn lemma_trim_start_form(s: Seq<char>)
    ensures
        exists|p: int|
            {
                &&& 0 <= p <= s.len()
                &&& trim_start(s) == #[trigger] s.skip(p)
                &&& forall|k: int| 0 <= k < p ==> is_white_space(#[trigger] s[k])
                &&& p == s.len() || !is_white_space(s[p])
            },
    decreases s.len(),
{
    if s.len() > 0 && is_white_space(s[0]) {
        let t = s.drop_first();
        lemma_trim_start_form(t);
        let p = choose|p: int|
            {
                &&& 0 <= p <= t.len()
                &&& trim_start(t) == #[trigger] t.skip(p)
                &&& forall|k: int| 0 <= k < p ==> is_white_space(#[trigger] t[k])
                &&& p == t.len() || !is_white_space(t[p])
            };
        assert(t.skip(p) =~= s.skip(p + 1));
        assert forall|k: int| 0 <= k < p + 1 implies is_white_space(#[trigger] s[k]) by {
            if k > 0 {
                assert(s[k] == t[k - 1]);
            }
        }
        if p < t.len() {
            assert(s[p + 1] == t[p]);
        }
    } else {
        assert(s.skip(0) =~= s);
    }
}

proof fn lemma_trim_end_form(s: Seq<char>)
    ensures
        exists|q: int|
            {
                &&& 0 <= q <= s.len()
                &&& trim_end(s) == #[trigger] s.take(q)
                &&& forall|k: int| q <= k < s.len() ==> is_white_space(#[trigger] s[k])
                &&& q == 0 || !is_white_space(s[q - 1])
            },
    decreases s.len(),
{
    if s.len() > 0 && is_white_space(s.last()) {
        let t = s.drop_last();
        lemma_trim_end_form(t);
        let q = choose|q: int|
            {
                &&& 0 <= q <= t.len()
                &&& trim_end(t) == #[trigger] t.take(q)
                &&& forall|k: int| q <= k < t.len() ==> is_white_space(#[trigger] t[k])
                &&& q == 0 || !is_white_space(t[q - 1])
            };
        assert(t.take(q) =~= s.take(q));
        assert forall|k: int| q <= k < s.len() implies is_white_space(#[trigger] s[k]) by {
            if k < t.len() {
                assert(s[k] == t[k]);
            }
        }
        if q > 0 {
            assert(s[q - 1] == t[q - 1]);
        }
    } else {
        assert(s.take(s.len() as int) =~= s);
    }
}

/// Trimming takes whitespace off both ends of the text and nothing else.
pub proof fn lemma_trim_form(x: Seq<char>)
    ensures
        trimmed_from(x, trim(x)),
{
    lemma_trim_start_form(x);
    let p = choose|p: int|
        {
            &&& 0 <= p <= x.len()
            &&& trim_start(x) == #[trigger] x.skip(p)
            &&& forall|k: int| 0 <= k < p ==> is_white_space(#[trigger] x[k])
            &&& p == x.len() || !is_white_space(x[p])
        };
    let u = x.skip(p);
    lemma_trim_end_form(u);
    let q = choose|q: int|
        {
            &&& 0 <= q <= u.len()
            &&& trim_end(u) == #[trigger] u.take(q)
            &&& forall|k: int| q <= k < u.len() ==> is_white_space(#[trigger] u[k])
            &&& q == 0 || !is_white_space(u[q - 1])
        };
    assert(trim(x) =~= x.subrange(p, p + q));
    assert forall|k: int| p + q <= k < x.len() implies is_white_space(#[trigger] x[k]) by {
        assert(x[k] == u[k - p]);
    }
    if 0 < q {
        assert(x[p] == u[0]);
        assert(x[p + q - 1] == u[q - 1]);
        if p == x.len() {
            assert(false);
        }
    }
}

/// The value of the last pair named `key`, by position: where pair `i` is
/// named `key` and no later pair is, its value is the one found.
pub proof fn lemma_last_value_at(pairs: Seq<(Seq<char>, Seq<char>)>, key: Seq<char>, i: int)
    requires
        0 <= i < pairs.len(),
        pairs[i].0 == key,
        forall|j: int| i < j < pairs.len() ==> (#[trigger] pairs[j]).0 != key,
    ensures
        last_value(pairs, key) == Some(pairs[i].1),
    decreases pairs.len(),
{
    if i < pairs.len() - 1 {
        assert(pairs.last() == pairs[pairs.len() - 1]);
        lemma_last_value_at(pairs.drop_last(), key, i);
    }
}

/// No pair named `key`, no value found.
pub proof fn lemma_last_value_absent(pairs: Seq<(Seq<char>, Seq<char>)>, key: Seq<char>)
    requires
        forall|j: int| 0 <= j < pairs.len() ==> (#[trigger] pairs[j]).0 != key,
    ensures
        last_value(pairs, key) is None,
    decreases pairs.len(),
{
    if pairs.len() > 0 {
        assert(pairs.last() == pairs[pairs.len() - 1]);
        lemma_last_value_absent(pairs.drop_last(), key);
    }
}

/// Two or more pieces joined: the first, the separator, the second, then the
/// rest, which is empty or starts with the separator.
pub proof fn lemma_join_first_two(ps: Seq<Seq<char>>, sep: char)
    requires
        ps.len() >= 2,
    ensures
        exists|rest: Seq<char>|
            join(ps, sep) == ps[0] + seq![sep] + ps[1] + rest && (rest.len() == 0 || rest[0] == sep),
    decreases ps.len(),
{
    if ps.len() == 2 {
        assert(ps.drop_last() =~= seq![ps[0]]);
        assert(join(ps.drop_last(), sep) == ps[0]);
        assert(join(ps, sep) =~= ps[0] + seq![sep] + ps[1] + Seq::<char>::empty());
    } else {
        let d = ps.drop_last();
        lemma_join_first_two(d, sep);
        let r = choose|rest: Seq<char>|
            join(d, sep) == d[0] + seq![sep] + d[1] + rest && (rest.len() == 0 || rest[0] == sep);
        let rest = r + seq![sep] + ps.last();
        assert(join(ps, sep) =~= ps[0] + seq![sep] + ps[1] + rest);
        if r.len() == 0 {
            assert(rest[0] == sep);
        } else {
            assert(rest[0] == r[0]);
        }
    }
}

} // verus!
