//! Text primitives over the character sequences that strings stand for:
//! substring search, prefix test, replacement, splitting at a separator,
//! joining and decimal rendering.
use vstd::prelude::*;
use vstd::string::*;

verus! {

/// `pat` occurs in `s` starting at character position `i`.
pub open spec fn occurs_at(s: Seq<char>, pat: Seq<char>, i: int) -> bool {
    &&& 0 <= i
    &&& i + pat.len() <= s.len()
    &&& s.subrange(i, i + pat.len()) == pat
}

/// `pat` occurs somewhere in `s` (the empty pattern occurs in every text).
pub open spec fn contains_seq(s: Seq<char>, pat: Seq<char>) -> bool {
    exists|i: int| #[trigger] occurs_at(s, pat, i)
}

/// `s` begins with `pat`.
pub open spec fn starts_with_seq(s: Seq<char>, pat: Seq<char>) -> bool {
    occurs_at(s, pat, 0)
}

/// Every non-overlapping occurrence of `from` in `s`, found left to right,
/// replaced by `to`. An empty `from` leaves the text as it is.
pub open spec fn replace_seq(s: Seq<char>, from: Seq<char>, to: Seq<char>) -> Seq<char>
    decreases s.len(),
{
    if from.len() == 0 || s.len() < from.len() {
        s
    } else if s.take(from.len() as int) == from {
        to + replace_seq(s.skip(from.len() as int), from, to)
    } else {
        seq![s[0]] + replace_seq(s.skip(1), from, to)
    }
}

/// Position of the first occurrence of `c` in `s`.
pub open spec fn first_index_of(s: Seq<char>, c: char) -> Option<int>
    decreases s.len(),
{
    if s.len() == 0 {
        None
    } else if s[0] == c {
        Some(0)
    } else {
        match first_index_of(s.skip(1), c) {
            Some(i) => Some(i + 1),
            None => None,
        }
    }
}

/// The part of `s` before the first `c`, or all of `s` when `c` does not occur.
pub open spec fn before_first(s: Seq<char>, c: char) -> Seq<char> {
    match first_index_of(s, c) {
        Some(i) => s.take(i),
        None => s,
    }
}

/// The part of `s` after the first `c`, when `c` occurs.
pub open spec fn after_first(s: Seq<char>, c: char) -> Option<Seq<char>> {
    match first_index_of(s, c) {
        Some(i) => Some(s.skip(i + 1)),
        None => None,
    }
}

/// The second field of `s` split at `c`: the text between the first `c`
/// and the next `c` (or the end), when `c` occurs.
pub open spec fn second_field(s: Seq<char>, c: char) -> Option<Seq<char>> {
    match after_first(s, c) {
        Some(rest) => Some(before_first(rest, c)),
        None => None,
    }
}

/// `parts` joined with `sep` between neighbours.
pub open spec fn join_seq(parts: Seq<Seq<char>>, sep: Seq<char>) -> Seq<char>
    decreases parts.len(),
{
    if parts.len() == 0 {
        Seq::empty()
    } else if parts.len() == 1 {
        parts[0]
    } else {
        join_seq(parts.drop_last(), sep) + sep + parts.last()
    }
}

/// The character of a decimal digit.
pub open spec fn digit_char(d: nat) -> char {
    if d == 0 {
        '0'
    } else if d == 1 {
        '1'
    } else if d == 2 {
        '2'
    } else if d == 3 {
        '3'
    } else if d == 4 {
        '4'
    } else if d == 5 {
        '5'
    } else if d == 6 {
        '6'
    } else if d == 7 {
        '7'
    } else if d == 8 {
        '8'
    } else {
        '9'
    }
}

/// The decimal rendering of `n`, without leading zeros.
pub open spec fn decimal(n: nat) -> Seq<char>
    decreases n,
{
    if n < 10 {
        seq![digit_char(n)]
    } else {
        decimal(n / 10) + seq![digit_char(n % 10)]
    }
}

/// The decimal rendering of `n`, with a leading zero when it has one digit.
pub open spec fn two_digit_decimal(n: nat) -> Seq<char> {
    if n < 10 {
        seq!['0'] + decimal(n)
    } else {
        decimal(n)
    }
}

/// Whether `pat` occurs in `s` at character position `i`.
fn matches_at(s: &str, pat: &str, i: usize, slen: usize, plen: usize) -> (r: bool)
    requires
        slen == s@.len(),
        plen == pat@.len(),
        i + plen <= slen,
    ensures
        r == occurs_at(s@, pat@, i as int),
{
    let mut j: usize = 0;
    while j < plen
        invariant
            j <= plen,
            slen == s@.len(),
            plen == pat@.len(),
            i + plen <= slen,
            forall|k: int| 0 <= k < j ==> s@[i + k] == pat@[k],
        decreases plen - j,
    {
        if s.get_char(i + j) != pat.get_char(j) {
            assert(s@.subrange(i as int, i + plen)[j as int] != pat@[j as int]);
            return false;
        }
        j = j + 1;
    }
    assert(s@.subrange(i as int, i + plen) =~= pat@);
    true
}

/// Whether `pat` occurs in `s`.
pub fn text_contains(s: &str, pat: &str) -> (r: bool)
    ensures
        r == contains_seq(s@, pat@),
{
    let slen = s.unicode_len();
    let plen = pat.unicode_len();
    if plen > slen {
        return false;
    }
    let mut i: usize = 0;
    loop
        invariant
            slen == s@.len(),
            plen == pat@.len(),
            plen <= slen,
            i <= slen - plen,
            forall|k: int| 0 <= k < i ==> !occurs_at(s@, pat@, k),
        decreases slen - plen - i,
    {
        if matches_at(s, pat, i, slen, plen) {
            return true;
        }
        if i == slen - plen {
            return false;
        }
        i = i + 1;
    }
}

/// Whether `s` begins with `pat`.
pub fn text_starts_with(s: &str, pat: &str) -> (r: bool)
    ensures
        r == starts_with_seq(s@, pat@),
{
    let slen = s.unicode_len();
    let plen = pat.unicode_len();
    if plen > slen {
        return false;
    }
    matches_at(s, pat, 0, slen, plen)
}

proof fn lemma_replace_step(s: Seq<char>, from: Seq<char>, to: Seq<char>, i: int, k: int)
    requires
        0 <= i,
        i + k <= s.len(),
        0 < k,
    ensures
        s.skip(i).skip(k) =~= s.skip(i + k),
        s.skip(i).take(k) =~= s.subrange(i, i + k),
{
}

/// `s` with every non-overlapping occurrence of `from` replaced by `to`.
pub fn replace_text(s: &str, from: &str, to: &str) -> (r: String)
    requires
        from@.len() > 0,
    ensures
        r@ == replace_seq(s@, from@, to@),
{
    let slen = s.unicode_len();
    let flen = from.unicode_len();
    let mut out = String::new();
    let mut i: usize = 0;
    assert(s@.skip(0) =~= s@);
    while i < slen
        invariant
            slen == s@.len(),
            flen == from@.len(),
            flen > 0,
            i <= slen,
            replace_seq(s@, from@, to@) == out@ + replace_seq(s@.skip(i as int), from@, to@),
        decreases slen - i,
    {
        let ghost rest = s@.skip(i as int);
        if flen <= slen - i {
            proof {
                lemma_replace_step(s@, from@, to@, i as int, flen as int);
            }
            if matches_at(s, from, i, slen, flen) {
                let ghost before = out@;
                out.append(to);
                assert(rest.take(flen as int) == from@);
                assert(replace_seq(rest, from@, to@) == to@ + replace_seq(
                    s@.skip(i + flen),
                    from@,
                    to@,
                ));
                assert(before + (to@ + replace_seq(s@.skip(i + flen), from@, to@)) =~= out@
                    + replace_seq(s@.skip(i + flen), from@, to@));
                i = i + flen;
            } else {
                let piece = s.substring_char(i, i + 1);
                proof {
                    lemma_replace_step(s@, from@, to@, i as int, 1);
                    assert(rest.take(flen as int) != from@);
                    assert(piece@ =~= seq![rest[0]]);
                    assert(replace_seq(rest, from@, to@) == seq![rest[0]] + replace_seq(
                        s@.skip(i + 1),
                        from@,
                        to@,
                    ));
                }
                let ghost before = out@;
                out.append(piece);
                assert(before + (seq![rest[0]] + replace_seq(s@.skip(i + 1), from@, to@)) =~= out@
                    + replace_seq(s@.skip(i + 1), from@, to@));
                i = i + 1;
            }
        } else {
            let piece = s.substring_char(i, slen);
            assert(piece@ =~= rest);
            assert(s@.skip(slen as int) =~= Seq::<char>::empty());
            out.append(piece);
            i = slen;
        }
    }
    assert(s@.skip(slen as int) =~= Seq::<char>::empty());
    out
}

/// The position of the first `c` in `s`, as found by a scan from the left.
fn find_char(s: &str, c: char) -> (r: Option<usize>)
    ensures
        match r {
            Some(i) => i < s@.len() && first_index_of(s@, c) == Some(i as int),
            None => first_index_of(s@, c) is None,
        },
{
    let n = s.unicode_len();
    let mut i: usize = 0;
    while i < n
        invariant
            n == s@.len(),
            i <= n,
            forall|k: int| 0 <= k < i ==> s@[k] != c,
        decreases n - i,
    {
        if s.get_char(i) == c {
            proof {
                lemma_first_index_found(s@, c, i as int);
            }
            return Some(i);
        }
        i = i + 1;
    }
    proof {
        lemma_first_index_absent(s@, c);
    }
    None
}

pub proof fn lemma_first_index_found(s: Seq<char>, c: char, i: int)
    requires
        0 <= i < s.len(),
        s[i] == c,
        forall|k: int| 0 <= k < i ==> s[k] != c,
    ensures
        first_index_of(s, c) == Some(i),
    decreases i,
{
    if i > 0 {
        lemma_first_index_found(s.skip(1), c, i - 1);
    }
}

pub proof fn lemma_first_index_absent(s: Seq<char>, c: char)
    requires
        forall|k: int| 0 <= k < s.len() ==> s[k] != c,
    ensures
        first_index_of(s, c) is None,
    decreases s.len(),
{
    if s.len() > 0 {
        lemma_first_index_absent(s.skip(1), c);
    }
}

/// A found position of `c` lies inside `s` and holds `c`.
pub proof fn lemma_first_index_bounds(s: Seq<char>, c: char)
    ensures
        match first_index_of(s, c) {
            Some(i) => 0 <= i < s.len() && s[i] == c && forall|k: int| 0 <= k < i ==> s[k] != c,
            None => forall|k: int| 0 <= k < s.len() ==> s[k] != c,
        },
    decreases s.len(),
{
    if s.len() > 0 && s[0] != c {
        lemma_first_index_bounds(s.skip(1), c);
        match first_index_of(s.skip(1), c) {
            Some(i) => {
                assert forall|k: int| 0 <= k < i + 1 implies s[k] != c by {
                    if k > 0 {
                        assert(s[k] == s.skip(1)[k - 1]);
                    }
                }
            },
            None => {
                assert forall|k: int| 0 <= k < s.len() implies s[k] != c by {
                    if k > 0 {
                        assert(s[k] == s.skip(1)[k - 1]);
                    }
                }
            },
        }
    }
}

/// The part before the first `c` holds only characters of `s`: a character
/// absent from `s` is absent from it.
pub proof fn lemma_before_first_free(s: Seq<char>, c: char, d: char)
    requires
        free_of(s, d),
    ensures
        free_of(before_first(s, c), d),
{
    lemma_first_index_bounds(s, c);
}

/// `s` cut at every `c`: the fields between the separators, in order.
pub open spec fn split_seq(s: Seq<char>, c: char) -> Seq<Seq<char>>
    decreases s.len(),
{
    match first_index_of(s, c) {
        Some(i) => {
            proof {
                lemma_first_index_bounds(s, c);
            }
            seq![s.take(i)] + split_seq(s.skip(i + 1), c)
        },
        None => seq![s],
    }
}

/// `c` does not occur in `s`.
pub open spec fn free_of(s: Seq<char>, c: char) -> bool {
    forall|k: int| 0 <= k < s.len() ==> s[k] != c
}

/// In `a`, then `c`, then `b`, with no `c` in `a`, the first `c` is the one
/// after `a`.
pub proof fn lemma_first_index_after(a: Seq<char>, c: char, b: Seq<char>)
    requires
        free_of(a, c),
    ensures
        first_index_of(a + seq![c] + b, c) == Some(a.len() as int),
{
    let s = a + seq![c] + b;
    assert(s[a.len() as int] == c);
    assert forall|k: int| 0 <= k < a.len() implies s[k] != c by {
        assert(s[k] == a[k]);
    }
    lemma_first_index_found(s, c, a.len() as int);
}

/// A join of two or more parts is the first part, the separator, and the
/// join of the rest.
pub proof fn lemma_join_front(parts: Seq<Seq<char>>, sep: Seq<char>)
    requires
        parts.len() >= 2,
    ensures
        join_seq(parts, sep) == parts[0] + sep + join_seq(parts.skip(1), sep),
    decreases parts.len(),
{
    if parts.len() == 2 {
        assert(parts.drop_last() =~= seq![parts[0]]);
        assert(parts.skip(1) =~= seq![parts[1]]);
        assert(join_seq(parts.skip(1), sep) == parts[1]);
        assert(join_seq(parts.drop_last(), sep) == parts[0]);
        assert(parts.last() == parts[1]);
        assert(join_seq(parts, sep) =~= parts[0] + sep + parts[1]);
    } else {
        let d = parts.drop_last();
        lemma_join_front(d, sep);
        assert(d.skip(1) =~= parts.skip(1).drop_last());
        assert(parts.skip(1).last() == parts.last());
        assert(join_seq(parts, sep) =~= parts[0] + sep + join_seq(parts.skip(1), sep));
    }
}

/// Cutting a join at its separator gives back the parts, when the
/// separator is one character that no part contains.
pub proof fn lemma_split_join(parts: Seq<Seq<char>>, c: char)
    requires
        parts.len() > 0,
        forall|k: int| 0 <= k < parts.len() ==> free_of(#[trigger] parts[k], c),
    ensures
        split_seq(join_seq(parts, seq![c]), c) == parts,
    decreases parts.len(),
{
    if parts.len() == 1 {
        lemma_first_index_absent(parts[0], c);
        assert(split_seq(parts[0], c) =~= seq![parts[0]]);
    } else {
        lemma_join_front(parts, seq![c]);
        let rest = join_seq(parts.skip(1), seq![c]);
        let s = parts[0] + seq![c] + rest;
        assert(free_of(parts[0], c));
        lemma_first_index_after(parts[0], c, rest);
        assert(s.take(parts[0].len() as int) =~= parts[0]);
        assert(s.skip(parts[0].len() as int + 1) =~= rest);
        assert forall|k: int| 0 <= k < parts.skip(1).len() implies free_of(
            #[trigger] parts.skip(1)[k],
            c,
        ) by {
            assert(parts.skip(1)[k] == parts[k + 1]);
        }
        lemma_split_join(parts.skip(1), c);
        assert(split_seq(s, c) =~= seq![parts[0]] + parts.skip(1));
        assert(seq![parts[0]] + parts.skip(1) =~= parts);
    }
}

/// The part of `s` before the first `c` (all of `s` without one).
pub fn text_before_first(s: &str, c: char) -> (r: String)
    ensures
        r@ == before_first(s@, c),
{
    match find_char(s, c) {
        Some(i) => {
            let part = s.substring_char(0, i);
            assert(part@ =~= s@.take(i as int));
            String::from_str(part)
        },
        None => String::from_str(s),
    }
}

/// The text between the first `c` and the next one (or the end), when `c` occurs.
pub fn text_second_field(s: &str, c: char) -> (r: Option<String>)
    ensures
        match r {
            Some(t) => second_field(s@, c) == Some(t@),
            None => second_field(s@, c) is None,
        },
{
    match find_char(s, c) {
        Some(i) => {
            let n = s.unicode_len();
            let rest = s.substring_char(i + 1, n);
            assert(rest@ =~= s@.skip(i + 1));
            Some(text_before_first(rest, c))
        },
        None => None,
    }
}

/// `parts` joined with `sep` between neighbours.
pub fn join_texts(parts: &Vec<String>, sep: &str) -> (r: String)
    ensures
        r@ == join_seq(parts@.map_values(|p: String| p@), sep@),
{
    let ghost views = parts@.map_values(|p: String| p@);
    let mut out = String::new();
    let mut i: usize = 0;
    while i < parts.len()
        invariant
            i <= parts.len(),
            views == parts@.map_values(|p: String| p@),
            out@ == join_seq(views.take(i as int), sep@),
        decreases parts.len() - i,
    {
        assert(views.take(i + 1).drop_last() =~= views.take(i as int));
        if i > 0 {
            out.append(sep);
        }
        out.append(parts[i].as_str());
        assert(views.take(i + 1).last() == parts@[i as int]@);
        i = i + 1;
    }
    assert(views.take(parts.len() as int) =~= views);
    out
}

/// The text of a single decimal digit.
fn digit_text(d: u64) -> (r: &'static str)
    requires
        d < 10,
    ensures
        r@ == seq![digit_char(d as nat)],
{
    if d == 0 {
        proof { reveal_strlit("0"); }
        "0"
    } else if d == 1 {
        proof { reveal_strlit("1"); }
        "1"
    } else if d == 2 {
        proof { reveal_strlit("2"); }
        "2"
    } else if d == 3 {
        proof { reveal_strlit("3"); }
        "3"
    } else if d == 4 {
        proof { reveal_strlit("4"); }
        "4"
    } else if d == 5 {
        proof { reveal_strlit("5"); }
        "5"
    } else if d == 6 {
        proof { reveal_strlit("6"); }
        "6"
    } else if d == 7 {
        proof { reveal_strlit("7"); }
        "7"
    } else if d == 8 {
        proof { reveal_strlit("8"); }
        "8"
    } else {
        proof { reveal_strlit("9"); }
        "9"
    }
}

/// The decimal rendering of `n`.
pub fn decimal_text(n: u64) -> (r: String)
    ensures
        r@ == decimal(n as nat),
    decreases n,
{
    if n < 10 {
        String::from_str(digit_text(n))
    } else {
        let mut head = decimal_text(n / 10);
        head.append(digit_text(n % 10));
        head
    }
}

/// The decimal rendering of `n`, zero-padded to at least two digits.
pub fn two_digit_text(n: u64) -> (r: String)
    ensures
        r@ == two_digit_decimal(n as nat),
{
    if n < 10 {
        proof { reveal_strlit("0"); }
        let mut out = String::from_str("0");
        out.append(digit_text(n));
        out
    } else {
        decimal_text(n)
    }
}

} // verus!
