//! Character-level helpers shared by the parser, the router and the
//! wire serializer: first-occurrence searches, splitting and joining,
//! trimming, and decimal rendering of unsigned numbers.

use vstd::prelude::*;

verus! {

/// Index of the first occurrence of `c` in `s`, or a negative value
/// when `c` does not occur.
pub open spec fn char_index(s: Seq<char>, c: char) -> int
    decreases s.len(),
{
    if s.len() == 0 {
        -1
    } else if s[0] == c {
        0
    } else {
        let rest = char_index(s.drop_first(), c);
        if rest < 0 {
            -1
        } else {
            1 + rest
        }
    }
}

pub proof fn lemma_char_index(s: Seq<char>, c: char)
    ensures
        char_index(s, c) < 0 ==> forall|i: int| 0 <= i < s.len() ==> s[i] != c,
        char_index(s, c) >= 0 ==> {
            &&& char_index(s, c) < s.len()
            &&& s[char_index(s, c)] == c
            &&& forall|i: int| 0 <= i < char_index(s, c) ==> s[i] != c
        },
    decreases s.len(),
{
    if s.len() == 0 {
    } else if s[0] == c {
    } else {
        lemma_char_index(s.drop_first(), c);
        let rest = char_index(s.drop_first(), c);
        if rest >= 0 {
            assert forall|i: int| 0 <= i < 1 + rest implies s[i] != c by {
                if i > 0 {
                    assert(s.drop_first()[i - 1] != c);
                }
            }
        } else {
            assert forall|i: int| 0 <= i < s.len() implies s[i] != c by {
                if i > 0 {
                    assert(s.drop_first()[i - 1] != c);
                }
            }
        }
    }
}

/// First index of `c` in `s`, if any.
pub fn find_char(s: &str, c: char) -> (r: Option<usize>)
    ensures
        match r {
            Some(i) => char_index(s@, c) == i as int,
            None => char_index(s@, c) < 0,
        },
{
    let n = s.unicode_len();
    let mut i: usize = 0;
    while i < n
        invariant
            i <= n,
            n == s@.len(),
            forall|j: int| 0 <= j < i ==> s@[j] != c,
        decreases n - i,
    {
        if s.get_char(i) == c {
            proof {
                lemma_char_index(s@, c);
            }
            return Some(i);
        }
        i = i + 1;
    }
    proof {
        lemma_char_index(s@, c);
    }
    None
}

/// Whether positions `i` and `i + 1` of `s` hold a CR LF pair.
pub open spec fn is_crlf_at(s: Seq<char>, i: int) -> bool {
    &&& 0 <= i
    &&& i + 1 < s.len()
    &&& s[i] == '\r'
    &&& s[i + 1] == '\n'
}

/// Index of the first CR LF pair in `s`, or a negative value when
/// there is none.
pub open spec fn crlf_index(s: Seq<char>) -> int
    decreases s.len(),
{
    if s.len() < 2 {
        -1
    } else if s[0] == '\r' && s[1] == '\n' {
        0
    } else {
        let rest = crlf_index(s.drop_first());
        if rest < 0 {
            -1
        } else {
            1 + rest
        }
    }
}

pub proof fn lemma_crlf_index(s: Seq<char>)
    ensures
        crlf_index(s) < 0 ==> forall|i: int| 0 <= i ==> !is_crlf_at(s, i),
        crlf_index(s) >= 0 ==> {
            &&& is_crlf_at(s, crlf_index(s))
            &&& forall|i: int| 0 <= i < crlf_index(s) ==> !is_crlf_at(s, i)
        },
    decreases s.len(),
{
    if s.len() < 2 {
    } else if s[0] == '\r' && s[1] == '\n' {
    } else {
        lemma_crlf_index(s.drop_first());
        let rest = crlf_index(s.drop_first());
        if rest >= 0 {
            assert(s.drop_first()[rest] == '\r' && s.drop_first()[rest + 1] == '\n');
            assert(is_crlf_at(s, 1 + rest));
            assert forall|i: int| 0 <= i < 1 + rest implies !is_crlf_at(s, i) by {
                if i > 0 && is_crlf_at(s, i) {
                    assert(s.drop_first()[i - 1] == '\r' && s.drop_first()[i] == '\n');
                    assert(is_crlf_at(s.drop_first(), i - 1));
                }
            }
        } else {
            assert forall|i: int| 0 <= i implies !is_crlf_at(s, i) by {
                if i > 0 && is_crlf_at(s, i) {
                    assert(s.drop_first()[i - 1] == '\r' && s.drop_first()[i] == '\n');
                    assert(is_crlf_at(s.drop_first(), i - 1));
                }
            }
        }
    }
}

/// First index of a CR LF pair in `s`, if any.
pub fn find_crlf(s: &str) -> (r: Option<usize>)
    ensures
        match r {
            Some(i) => crlf_index(s@) == i as int,
            None => crlf_index(s@) < 0,
        },
{
    let n = s.unicode_len();
    if n < 1 {
        proof {
            lemma_crlf_index(s@);
        }
        return None;
    }
    let mut i: usize = 0;
    while i + 1 < n
        invariant
            i < n,
            n == s@.len(),
            forall|j: int| 0 <= j < i ==> !is_crlf_at(s@, j),
        decreases n - i,
    {
        if s.get_char(i) == '\r' && s.get_char(i + 1) == '\n' {
            proof {
                lemma_crlf_index(s@);
                assert(is_crlf_at(s@, i as int));
            }
            return Some(i);
        }
        i = i + 1;
    }
    proof {
        lemma_crlf_index(s@);
        assert forall|j: int| 0 <= j implies !is_crlf_at(s@, j) by {
            if is_crlf_at(s@, j) {
                assert(j < i || j + 1 >= n);
            }
        }
    }
    None
}

/// The parts of `s` split on `c`: splitting never yields an empty
/// sequence of parts, and the separator is consumed.
pub open spec fn spec_split(s: Seq<char>, c: char) -> Seq<Seq<char>>
    decreases s.len(),
{
    let i = char_index(s, c);
    if 0 <= i < s.len() {
        seq![s.take(i)] + spec_split(s.skip(i + 1), c)
    } else {
        seq![s]
    }
}

/// Splits `s` on `c`.
pub fn split_str(s: &str, c: char) -> (r: Vec<String>)
    ensures
        r.deep_view() == spec_split(s@, c),
    decreases s@.len(),
{
    let n = s.unicode_len();
    match find_char(s, c) {
        None => {
            let mut v: Vec<String> = Vec::new();
            v.push(s.to_owned());
            proof {
                assert(v.deep_view() =~= spec_split(s@, c));
            }
            v
        },
        Some(i) => {
            proof {
                lemma_char_index(s@, c);
            }
            let head = s.substring_char(0, i);
            let tail = s.substring_char(i + 1, n);
            let rest = split_str(tail, c);
            let mut v: Vec<String> = Vec::new();
            v.push(head.to_owned());
            let mut rest_v = rest;
            v.append(&mut rest_v);
            proof {
                assert(s@.take(i as int) == head@);
                assert(v.deep_view() =~= spec_split(s@, c));
            }
            v
        },
    }
}

/// Whether `c` occurs nowhere in `part`.
pub open spec fn char_free(part: Seq<char>, c: char) -> bool {
    forall|j: int| 0 <= j < part.len() ==> part[j] != c
}

/// A text without `c` has no first occurrence of it.
pub proof fn lemma_char_free_index(s: Seq<char>, c: char)
    requires
        char_free(s, c),
    ensures
        char_index(s, c) < 0,
{
    lemma_char_index(s, c);
    if char_index(s, c) >= 0 {
        assert(s[char_index(s, c)] == c);
    }
}

/// No part of a split holds the separator.
pub proof fn lemma_split_parts_free(s: Seq<char>, c: char)
    ensures
        forall|i: int|
            0 <= i < spec_split(s, c).len() ==> char_free(#[trigger] spec_split(s, c)[i], c),
    decreases s.len(),
{
    let idx = char_index(s, c);
    lemma_char_index(s, c);
    if 0 <= idx < s.len() {
        lemma_split_parts_free(s.skip(idx + 1), c);
        assert forall|i: int| 0 <= i < spec_split(s, c).len() implies char_free(
            #[trigger] spec_split(s, c)[i],
            c,
        ) by {
            if i == 0 {
                assert(spec_split(s, c)[0] == s.take(idx));
                assert forall|j: int| 0 <= j < s.take(idx).len() implies s.take(idx)[j] != c by {
                    assert(s.take(idx)[j] == s[j]);
                }
            } else {
                assert(spec_split(s, c)[i] == spec_split(s.skip(idx + 1), c)[i - 1]);
            }
        }
    } else {
        assert(spec_split(s, c) == seq![s]);
        assert(char_free(s, c));
    }
}

/// The separator's first occurrence in a clean prefix, the separator
/// itself, and a tail, stands exactly after the prefix.
pub proof fn lemma_char_index_concat(p: Seq<char>, rest: Seq<char>, c: char)
    requires
        char_free(p, c),
    ensures
        char_index(p + seq![c] + rest, c) == p.len(),
{
    let s = p + seq![c] + rest;
    lemma_char_index(s, c);
    assert(s[p.len() as int] == c);
    let f = char_index(s, c);
    if f < 0 {
        assert(s[p.len() as int] != c);
    } else if f < p.len() {
        assert(s[f] == p[f]);
        assert(p[f] != c);
    } else if f > p.len() {
        assert(s[p.len() as int] != c);
    }
}

/// The parts of `parts` that are not empty, in order.
pub open spec fn spec_nonempty(parts: Seq<Seq<char>>) -> Seq<Seq<char>>
    decreases parts.len(),
{
    if parts.len() == 0 {
        Seq::empty()
    } else if parts[0].len() > 0 {
        seq![parts[0]] + spec_nonempty(parts.drop_first())
    } else {
        spec_nonempty(parts.drop_first())
    }
}

/// Keeps the nonempty strings of `v`, from index `from` on.
pub fn nonempty_from(v: &Vec<String>, from: usize) -> (r: Vec<String>)
    requires
        from <= v.len(),
    ensures
        r.deep_view() == spec_nonempty(v.deep_view().skip(from as int)),
    decreases v.len() - from,
{
    if from == v.len() {
        let r: Vec<String> = Vec::new();
        proof {
            assert(r.deep_view() =~= spec_nonempty(v.deep_view().skip(from as int)));
        }
        r
    } else {
        let rest = nonempty_from(v, from + 1);
        proof {
            assert(v.deep_view().skip(from as int).drop_first() =~= v.deep_view().skip(
                from as int + 1,
            ));
        }
        if v[from].as_str().unicode_len() > 0 {
            let mut r: Vec<String> = Vec::new();
            r.push(v[from].clone());
            let mut rest_v = rest;
            r.append(&mut rest_v);
            proof {
                assert(r.deep_view() =~= spec_nonempty(v.deep_view().skip(from as int)));
            }
            r
        } else {
            rest
        }
    }
}

/// Dropping the empty parts keeps exactly the nonempty ones, each
/// as clean as it was.
pub proof fn lemma_nonempty_parts(parts: Seq<Seq<char>>, c: char)
    requires
        forall|i: int| 0 <= i < parts.len() ==> char_free(#[trigger] parts[i], c),
    ensures
        forall|i: int|
            0 <= i < spec_nonempty(parts).len() ==> (#[trigger] spec_nonempty(parts)[i]).len() > 0
                && char_free(spec_nonempty(parts)[i], c),
    decreases parts.len(),
{
    if parts.len() == 0 {
    } else {
        assert forall|i: int| 0 <= i < parts.drop_first().len() implies char_free(
            #[trigger] parts.drop_first()[i],
            c,
        ) by {
            assert(parts.drop_first()[i] == parts[i + 1]);
        }
        lemma_nonempty_parts(parts.drop_first(), c);
        if parts[0].len() > 0 {
            assert forall|i: int| 0 <= i < spec_nonempty(parts).len() implies (
            #[trigger] spec_nonempty(parts)[i]).len() > 0 && char_free(
                spec_nonempty(parts)[i],
                c,
            ) by {
                if i > 0 {
                    assert(spec_nonempty(parts)[i] == spec_nonempty(parts.drop_first())[i - 1]);
                }
            }
        }
    }
}

/// `parts` joined with `c` between consecutive parts.
pub open spec fn spec_join(parts: Seq<Seq<char>>, c: char) -> Seq<char>
    decreases parts.len(),
{
    if parts.len() == 0 {
        Seq::empty()
    } else if parts.len() == 1 {
        parts[0]
    } else {
        parts[0].push(c) + spec_join(parts.drop_first(), c)
    }
}

/// Joins `v[from..]` with `/` between consecutive parts.
pub fn join_slash(v: &Vec<String>, from: usize) -> (r: String)
    requires
        from <= v.len(),
    ensures
        r@ == spec_join(v.deep_view().skip(from as int), '/'),
    decreases v.len() - from,
{
    proof {
        reveal_strlit("/");
    }
    if from == v.len() {
        let r = String::new();
        proof {
            assert(r@ =~= spec_join(v.deep_view().skip(from as int), '/'));
        }
        r
    } else if from + 1 == v.len() {
        let r = v[from].clone();
        proof {
            assert(r@ =~= spec_join(v.deep_view().skip(from as int), '/'));
        }
        r
    } else {
        let mut r = v[from].clone();
        r.append("/");
        let rest = join_slash(v, from + 1);
        r.append(rest.as_str());
        proof {
            assert(v.deep_view().skip(from as int).drop_first() =~= v.deep_view().skip(
                from as int + 1,
            ));
            assert(r@ =~= spec_join(v.deep_view().skip(from as int), '/'));
        }
        r
    }
}

/// Splitting a join undoes it: for parts that are nonempty and free
/// of the separator — as the segments of a split path are — joining
/// them and splitting again gives the parts back exactly.
pub proof fn lemma_split_join(parts: Seq<Seq<char>>, c: char)
    requires
        forall|i: int|
            0 <= i < parts.len() ==> ((#[trigger] parts[i]).len() > 0 && char_free(parts[i], c)),
    ensures
        spec_nonempty(spec_split(spec_join(parts, c), c)) == parts,
    decreases parts.len(),
{
    if parts.len() == 0 {
        let joined = spec_join(parts, c);
        assert(joined =~= Seq::<char>::empty());
        lemma_char_index(joined, c);
        assert(spec_split(joined, c) == seq![joined]);
        assert(seq![joined].drop_first() =~= Seq::<Seq<char>>::empty());
        assert(spec_nonempty(Seq::<Seq<char>>::empty()) =~= Seq::<Seq<char>>::empty());
        assert(spec_nonempty(spec_split(joined, c)) =~= parts);
    } else if parts.len() == 1 {
        let joined = spec_join(parts, c);
        assert(joined == parts[0]);
        lemma_char_free_index(joined, c);
        assert(spec_split(joined, c) == seq![joined]);
        assert(seq![joined].drop_first() =~= Seq::<Seq<char>>::empty());
        assert(spec_nonempty(Seq::<Seq<char>>::empty()) =~= Seq::<Seq<char>>::empty());
        assert(spec_nonempty(spec_split(joined, c)) =~= parts);
    } else {
        let tail = spec_join(parts.drop_first(), c);
        let joined = spec_join(parts, c);
        assert(joined == parts[0].push(c) + tail);
        assert(joined =~= parts[0] + seq![c] + tail);
        lemma_char_index_concat(parts[0], tail, c);
        let idx = char_index(joined, c);
        assert(idx == parts[0].len());
        assert(0 <= idx < joined.len());
        assert(joined.take(idx) =~= parts[0]);
        assert(joined.skip(idx + 1) =~= tail);
        assert(spec_split(joined, c) == seq![parts[0]] + spec_split(tail, c));
        assert forall|i: int| 0 <= i < parts.drop_first().len() implies ((
        #[trigger] parts.drop_first()[i]).len() > 0 && char_free(parts.drop_first()[i], c)) by {
            assert(parts.drop_first()[i] == parts[i + 1]);
        }
        lemma_split_join(parts.drop_first(), c);
        let whole = seq![parts[0]] + spec_split(tail, c);
        assert(whole[0] == parts[0]);
        assert(whole[0].len() > 0);
        assert(whole.drop_first() =~= spec_split(tail, c));
        assert(spec_nonempty(whole) == seq![parts[0]] + spec_nonempty(spec_split(tail, c)));
        assert(spec_nonempty(spec_split(joined, c)) =~= parts);
    }
}

/// `s` without its leading spaces.
pub open spec fn spec_trim_start(s: Seq<char>) -> Seq<char>
    decreases s.len(),
{
    if s.len() > 0 && s[0] == ' ' {
        spec_trim_start(s.drop_first())
    } else {
        s
    }
}

/// Drops the leading spaces of `s`.
pub fn trim_start(s: &str) -> (r: String)
    ensures
        r@ == spec_trim_start(s@),
    decreases s@.len(),
{
    let n = s.unicode_len();
    if n > 0 && s.get_char(0) == ' ' {
        let rest = s.substring_char(1, n);
        proof {
            assert(rest@ =~= s@.drop_first());
        }
        trim_start(rest)
    } else {
        s.to_owned()
    }
}

/// Whether two string slices hold the same characters.
pub fn str_eq(a: &str, b: &str) -> (r: bool)
    ensures
        r == (a@ == b@),
{
    let n = a.unicode_len();
    if n != b.unicode_len() {
        return false;
    }
    let mut i: usize = 0;
    while i < n
        invariant
            i <= n,
            n == a@.len(),
            n == b@.len(),
            forall|j: int| 0 <= j < i ==> a@[j] == b@[j],
        decreases n - i,
    {
        if a.get_char(i) != b.get_char(i) {
            return false;
        }
        i = i + 1;
    }
    proof {
        assert(a@ =~= b@);
    }
    true
}

/// The decimal digit character for `d`.
pub open spec fn spec_digit(d: int) -> char {
    if d == 0 {
        '0'
    } else if d == 1 {
        '1'
    } else if d == 2 {
        '2'
    } else if d == 3 {
        '3'
    } else if d == 4 {
        '4'
    } else if d == 5 {
        '5'
    } else if d == 6 {
        '6'
    } else if d == 7 {
        '7'
    } else if d == 8 {
        '8'
    } else {
        '9'
    }
}

/// The decimal rendering of `n`, without sign and without leading
/// zeros (except for `n == 0`, which reads "0").
pub open spec fn spec_dec(n: int) -> Seq<char>
    decreases n,
{
    if n < 10 {
        seq![spec_digit(n)]
    } else {
        spec_dec(n / 10).push(spec_digit(n % 10))
    }
}

/// The digit character for `d`.
pub fn digit_str(d: u64) -> (r: &'static str)
    requires
        d < 10,
    ensures
        r@ == seq![spec_digit(d as int)],
{
    proof {
        reveal_strlit("0");
        reveal_strlit("1");
        reveal_strlit("2");
        reveal_strlit("3");
        reveal_strlit("4");
        reveal_strlit("5");
        reveal_strlit("6");
        reveal_strlit("7");
        reveal_strlit("8");
        reveal_strlit("9");
    }
    let r = if d == 0 {
        "0"
    } else if d == 1 {
        "1"
    } else if d == 2 {
        "2"
    } else if d == 3 {
        "3"
    } else if d == 4 {
        "4"
    } else if d == 5 {
        "5"
    } else if d == 6 {
        "6"
    } else if d == 7 {
        "7"
    } else if d == 8 {
        "8"
    } else {
        "9"
    };
    proof {
        assert(r@ =~= seq![spec_digit(d as int)]);
    }
    r
}

/// Renders `n` in decimal.
pub fn u64_to_string(n: u64) -> (r: String)
    ensures
        r@ == spec_dec(n as int),
    decreases n,
{
    if n < 10 {
        digit_str(n).to_owned()
    } else {
        let mut r = u64_to_string(n / 10);
        r.append(digit_str(n % 10));
        proof {
            assert(r@ =~= spec_dec(n as int));
        }
        r
    }
}

} // verus!
