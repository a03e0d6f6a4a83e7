//! Verified character-level text utilities: substring search, line
//! splitting, joining, and decimal rendering of integers.
use vstd::prelude::*;

verus! {

/// The pattern `pat` occurs in `s` starting at index `i`.
pub open spec fn match_at(s: Seq<char>, pat: Seq<char>, i: int) -> bool {
    0 <= i && i + pat.len() <= s.len() && s.subrange(i, i + pat.len()) == pat
}

/// The pattern occurs somewhere in `s`.
pub open spec fn contains_seq(s: Seq<char>, pat: Seq<char>) -> bool {
    exists|i: int| match_at(s, pat, i)
}

/// No occurrence of `pat` starts before index `end`.
pub open spec fn no_match_before(s: Seq<char>, pat: Seq<char>, end: int) -> bool {
    forall|j: int| 0 <= j < end ==> !match_at(s, pat, j)
}

/// Index of the first occurrence of `pat` in `s`, if any.
pub open spec fn find_first(s: Seq<char>, pat: Seq<char>) -> Option<int> {
    if contains_seq(s, pat) {
        Some(choose|i: int| match_at(s, pat, i) && no_match_before(s, pat, i))
    } else {
        None
    }
}

proof fn lemma_find_first_exists(s: Seq<char>, pat: Seq<char>, i: int)
    requires
        match_at(s, pat, i),
    ensures
        exists|j: int| match_at(s, pat, j) && no_match_before(s, pat, j),
    decreases i,
{
    if no_match_before(s, pat, i) {
    } else {
        let j = choose|j: int| 0 <= j < i && match_at(s, pat, j);
        lemma_find_first_exists(s, pat, j);
    }
}

/// `find_first` returns the unique first occurrence.
pub proof fn lemma_find_first_spec(s: Seq<char>, pat: Seq<char>)
    ensures
        match find_first(s, pat) {
            Some(i) => match_at(s, pat, i) && no_match_before(s, pat, i),
            None => forall|j: int| !match_at(s, pat, j),
        },
{
    if contains_seq(s, pat) {
        let w = choose|i: int| match_at(s, pat, i);
        lemma_find_first_exists(s, pat, w);
        let i = choose|i: int| match_at(s, pat, i) && no_match_before(s, pat, i);
        assert(match_at(s, pat, i) && no_match_before(s, pat, i));
    } else {
        assert(forall|j: int| !match_at(s, pat, j));
    }
}

pub proof fn lemma_find_first_unique(s: Seq<char>, pat: Seq<char>, i: int)
    requires
        match_at(s, pat, i),
        no_match_before(s, pat, i),
    ensures
        find_first(s, pat) == Some(i),
{
    lemma_find_first_spec(s, pat);
    let j = find_first(s, pat)->Some_0;
    if j < i {
        assert(!match_at(s, pat, j));
    }
    if i < j {
        assert(!match_at(s, pat, i));
    }
}

/// Whether `pat` occurs in `s` at position `i`, decided executably.
pub fn match_at_exec(s: &str, pat: &str, i: usize) -> (r: bool)
    ensures
        r == match_at(s@, pat@, i as int),
{
    let n = s.unicode_len();
    let m = pat.unicode_len();
    if m > n || i > n - m {
        assert(!match_at(s@, pat@, i as int));
        return false;
    }
    let mut k: usize = 0;
    while k < m
        invariant
            0 <= k <= m,
            m <= n,
            i <= n - m,
            n == s@.len(),
            m == pat@.len(),
            forall|t: int| 0 <= t < k ==> s@[i + t] == pat@[t],
        decreases m - k,
    {
        if s.get_char(i + k) != pat.get_char(k) {
            assert(!match_at(s@, pat@, i as int)) by {
                if match_at(s@, pat@, i as int) {
                    assert(s@.subrange(i as int, i + pat@.len())[k as int] == pat@[k as int]);
                }
            }
            return false;
        }
        k += 1;
    }
    assert(s@.subrange(i as int, i + pat@.len()) =~= pat@);
    true
}

/// First occurrence of `pat` in `s`, scanning left to right.
pub fn find_str(s: &str, pat: &str) -> (r: Option<usize>)
    ensures
        match r {
            Some(i) => find_first(s@, pat@) == Some(i as int),
            None => find_first(s@, pat@) is None,
        },
{
    proof {
        lemma_find_first_spec(s@, pat@);
    }
    let n = s.unicode_len();
    let m = pat.unicode_len();
    if m > n {
        assert(forall|j: int| !match_at(s@, pat@, j));
        return None;
    }
    if m == 0 {
        assert(match_at(s@, pat@, 0)) by {
            assert(s@.subrange(0, 0) =~= pat@);
        }
        proof {
            lemma_find_first_unique(s@, pat@, 0);
        }
        return Some(0);
    }
    let end = n - m;
    let mut i: usize = 0;
    while i <= end
        invariant
            1 <= m <= n,
            end == n - m,
            0 <= i <= end + 1,
            n == s@.len(),
            m == pat@.len(),
            no_match_before(s@, pat@, i as int),
        decreases end + 1 - i,
    {
        if match_at_exec(s, pat, i) {
            proof {
                lemma_find_first_unique(s@, pat@, i as int);
            }
            return Some(i);
        }
        i += 1;
    }
    assert(forall|j: int| !match_at(s@, pat@, j)) by {
        assert(forall|j: int| j > end ==> !match_at(s@, pat@, j));
    }
    None
}

/// Equality of two string slices, decided character by character.
pub fn str_eq(a: &str, b: &str) -> (r: bool)
    ensures
        r == (a@ == b@),
{
    let n = a.unicode_len();
    if n != b.unicode_len() {
        return false;
    }
    let mut i: usize = 0;
    while i < n
        invariant
            0 <= i <= n,
            n == a@.len(),
            n == b@.len(),
            forall|t: int| 0 <= t < i ==> a@[t] == b@[t],
        decreases n - i,
    {
        if a.get_char(i) != b.get_char(i) {
            assert(a@ != b@);
            return false;
        }
        i += 1;
    }
    proof {
        assert(a@ =~= b@);
    }
    true
}

/// `pat` is a prefix of `s`.
pub open spec fn is_prefix(s: Seq<char>, pat: Seq<char>) -> bool {
    pat.len() <= s.len() && s.subrange(0, pat.len() as int) == pat
}

pub fn starts_with(s: &str, pat: &str) -> (r: bool)
    ensures
        r == is_prefix(s@, pat@),
{
    let r = match_at_exec(s, pat, 0);
    r
}

/// Characters of `s` from `from` onward, as an owned string.
pub fn suffix_from(s: &str, from: usize) -> (r: String)
    requires
        from <= s@.len(),
    ensures
        r@ == s@.skip(from as int),
{
    let r = s.substring_char(from, s.unicode_len()).to_owned();
    assert(r@ =~= s@.skip(from as int));
    r
}

/// Characters of `s` strictly before `to`, as an owned string.
pub fn prefix_to(s: &str, to: usize) -> (r: String)
    requires
        to <= s@.len(),
    ensures
        r@ == s@.take(to as int),
{
    let r = s.substring_char(0, to).to_owned();
    assert(r@ =~= s@.take(to as int));
    r
}

/// Index of the first occurrence of the character `c` in `s`, if any.
pub open spec fn find_ch(s: Seq<char>, c: char) -> Option<int>
    decreases s.len(),
{
    if s.len() == 0 {
        None
    } else if s[0] == c {
        Some(0)
    } else {
        match find_ch(s.drop_first(), c) {
            None => None,
            Some(i) => Some(i + 1),
        }
    }
}

pub proof fn lemma_find_ch_spec(s: Seq<char>, c: char)
    ensures
        match find_ch(s, c) {
            Some(i) => 0 <= i < s.len() && s[i] == c && forall|j: int| 0 <= j < i ==> s[j] != c,
            None => forall|j: int| 0 <= j < s.len() ==> s[j] != c,
        },
    decreases s.len(),
{
    if s.len() > 0 && s[0] != c {
        lemma_find_ch_spec(s.drop_first(), c);
        match find_ch(s.drop_first(), c) {
            Some(i) => {
                assert(s.drop_first()[i] == s[i + 1]);
                assert forall|j: int| 0 <= j < i + 1 implies s[j] != c by {
                    if j > 0 {
                        assert(s.drop_first()[j - 1] == s[j]);
                    }
                }
            },
            None => {
                assert forall|j: int| 0 <= j < s.len() implies s[j] != c by {
                    if j > 0 {
                        assert(s.drop_first()[j - 1] == s[j]);
                    }
                }
            },
        }
    }
}

/// First occurrence of character `c`, scanning left to right.
pub fn find_char(s: &str, c: char) -> (r: Option<usize>)
    ensures
        match r {
            Some(i) => find_ch(s@, c) == Some(i as int),
            None => find_ch(s@, c) is None,
        },
{
    proof {
        lemma_find_ch_spec(s@, c);
    }
    let n = s.unicode_len();
    let mut i: usize = 0;
    while i < n
        invariant
            0 <= i <= n,
            n == s@.len(),
            forall|j: int| 0 <= j < i ==> s@[j] != c,
        decreases n - i,
    {
        if s.get_char(i) == c {
            proof {
                lemma_find_ch_first(s@, c, i as int);
            }
            return Some(i);
        }
        i += 1;
    }
    None
}

pub proof fn lemma_find_ch_first(s: Seq<char>, c: char, i: int)
    requires
        0 <= i < s.len(),
        s[i] == c,
        forall|j: int| 0 <= j < i ==> s[j] != c,
    ensures
        find_ch(s, c) == Some(i),
{
    lemma_find_ch_spec(s, c);
    match find_ch(s, c) {
        Some(k) => {
            if k < i {
                assert(s[k] != c);
            }
            if i < k {
                assert(s[i] != c);
            }
        },
        None => {
            assert(s[i] != c);
        },
    }
}

/// Drop one trailing carriage return, as the line splitter does when the
/// line ended in a carriage return followed by the splitting newline.
pub open spec fn strip_cr(l: Seq<char>) -> Seq<char> {
    if l.len() > 0 && l[l.len() - 1] == '\r' {
        l.drop_last()
    } else {
        l
    }
}

/// Split `s` into lines on newline characters: a trailing newline ends the
/// last line rather than opening an empty one, and a carriage return
/// immediately before a newline is dropped.
pub open spec fn lines_of(s: Seq<char>) -> Seq<Seq<char>>
    decreases s.len(),
    via lines_of_decreases
{
    if s.len() == 0 {
        seq![]
    } else {
        match find_ch(s, '\n') {
            None => seq![s],
            Some(i) => seq![strip_cr(s.take(i))] + lines_of(s.skip(i + 1)),
        }
    }
}

#[via_fn]
proof fn lines_of_decreases(s: Seq<char>) {
    lemma_find_ch_spec(s, '\n');
}

/// Split a string into its lines.
pub fn lines_vec(s: &str) -> (r: Vec<String>)
    ensures
        r.deep_view() == lines_of(s@),
{
    let mut out: Vec<String> = Vec::new();
    let mut rest: String = s.to_owned();
    proof {
        assert(out.deep_view() + lines_of(rest@) =~= lines_of(s@));
    }
    loop
        invariant
            out.deep_view() + lines_of(rest@) == lines_of(s@),
        decreases rest@.len(),
    {
        proof {
            lemma_find_ch_spec(rest@, '\n');
        }
        let len = rest.as_str().unicode_len();
        match find_char(rest.as_str(), '\n') {
            Some(i) => {
                let ghost prev = rest@;
                assert(i < len);
                let mut line = prefix_to(rest.as_str(), i);
                if i > 0 && line.as_str().get_char(i - 1) == '\r' {
                    let stripped = prefix_to(line.as_str(), i - 1);
                    assert(stripped@ =~= strip_cr(prev.take(i as int)));
                    line = stripped;
                } else {
                    assert(line@ =~= strip_cr(prev.take(i as int)));
                }
                let ghost old_out = out.deep_view();
                out.push(line);
                assert(out.deep_view() =~= old_out.push(line@));
                rest = suffix_from(rest.as_str(), i + 1);
                proof {
                    assert(lines_of(prev) == seq![strip_cr(prev.take(i as int))] + lines_of(
                        rest@,
                    ));
                    assert(out.deep_view() + lines_of(rest@) =~= old_out + lines_of(prev));
                }
            },
            None => {
                if rest.as_str().unicode_len() > 0 {
                    let ghost old_out = out.deep_view();
                    let ghost prev = rest@;
                    out.push(rest);
                    assert(out.deep_view() =~= old_out.push(prev));
                    assert(lines_of(prev) == seq![prev]);
                    assert(out.deep_view() =~= old_out + lines_of(prev));
                    return out;
                }
                assert(lines_of(rest@) =~= Seq::<Seq<char>>::empty());
                assert(out.deep_view() =~= out.deep_view() + lines_of(rest@));
                return out;
            },
        }
    }
}

/// The elements of `xs` joined with the separator `sep` between them.
pub open spec fn seq_join(xs: Seq<Seq<char>>, sep: Seq<char>) -> Seq<char>
    decreases xs.len(),
{
    if xs.len() == 0 {
        seq![]
    } else if xs.len() == 1 {
        xs[0]
    } else {
        xs[0] + sep + seq_join(xs.drop_first(), sep)
    }
}

pub proof fn lemma_seq_join_push(xs: Seq<Seq<char>>, sep: Seq<char>, x: Seq<char>)
    ensures
        seq_join(xs.push(x), sep) == if xs.len() == 0 {
            x
        } else {
            seq_join(xs, sep) + sep + x
        },
    decreases xs.len(),
{
    if xs.len() == 0 {
        assert(xs.push(x)[0] =~= x);
        assert(xs.push(x).len() == 1);
    } else if xs.len() == 1 {
        assert(xs.push(x).drop_first() =~= seq![x]);
        assert(xs.push(x)[0] == xs[0]);
        assert(seq_join(seq![x], sep) == x);
        assert(seq_join(xs.push(x), sep) == xs[0] + sep + x);
        assert(seq_join(xs, sep) == xs[0]);
    } else {
        lemma_seq_join_push(xs.drop_first(), sep, x);
        assert(xs.push(x).drop_first() =~= xs.drop_first().push(x));
        assert(seq_join(xs, sep) + sep + x =~= xs[0] + sep + (seq_join(xs.drop_first(), sep)
            + sep + x));
    }
}

/// Join a vector of strings with a separator.
pub fn join_with(xs: &Vec<String>, sep: &str) -> (r: String)
    ensures
        r@ == seq_join(xs.deep_view(), sep@),
{
    let mut r = String::new();
    let n = xs.len();
    let mut i: usize = 0;
    while i < n
        invariant
            0 <= i <= n,
            n == xs.len(),
            r@ == seq_join(xs.deep_view().take(i as int), sep@),
        decreases n - i,
    {
        if i > 0 {
            r.append(sep);
        }
        r.append(xs[i].as_str());
        proof {
            let prev = xs.deep_view().take(i as int);
            lemma_seq_join_push(prev, sep@, xs.deep_view()[i as int]);
            assert(xs.deep_view().take(i + 1) =~= prev.push(xs.deep_view()[i as int]));
        }
        i += 1;
    }
    proof {
        assert(xs.deep_view().take(n as int) =~= xs.deep_view());
    }
    r
}

/// The character for a single decimal digit.
pub open spec fn char_of_digit(d: int) -> char
    recommends
        0 <= d <= 9,
{
    if d == 0 {
        '0'
    } else if d == 1 {
        '1'
    } else if d == 2 {
        '2'
    } else if d == 3 {
        '3'
    } else if d == 4 {
        '4'
    } else if d == 5 {
        '5'
    } else if d == 6 {
        '6'
    } else if d == 7 {
        '7'
    } else if d == 8 {
        '8'
    } else {
        '9'
    }
}

/// Decimal representation of a natural number, most significant digit first.
pub open spec fn dec_rep(n: nat) -> Seq<char>
    decreases n,
{
    if n < 10 {
        seq![char_of_digit(n as int)]
    } else {
        dec_rep(n / 10).push(char_of_digit((n % 10) as int))
    }
}

/// Decimal representation of a signed number: a minus sign before the
/// magnitude when negative.
pub open spec fn dec_rep_signed(n: int) -> Seq<char> {
    if n < 0 {
        seq!['-'] + dec_rep((-n) as nat)
    } else {
        dec_rep(n as nat)
    }
}

fn digit_str(d: u64) -> (r: &'static str)
    requires
        d <= 9,
    ensures
        r@ == seq![char_of_digit(d as int)],
{
    proof {
        reveal_strlit("0");
        reveal_strlit("1");
        reveal_strlit("2");
        reveal_strlit("3");
        reveal_strlit("4");
        reveal_strlit("5");
        reveal_strlit("6");
        reveal_strlit("7");
        reveal_strlit("8");
        reveal_strlit("9");
    }
    let r = if d == 0 {
        "0"
    } else if d == 1 {
        "1"
    } else if d == 2 {
        "2"
    } else if d == 3 {
        "3"
    } else if d == 4 {
        "4"
    } else if d == 5 {
        "5"
    } else if d == 6 {
        "6"
    } else if d == 7 {
        "7"
    } else {
        "8"
    };
    if d == 9 {
        let nine = "9";
        assert(nine@ =~= seq![char_of_digit(9)]);
        return nine;
    }
    assert(r@ =~= seq![char_of_digit(d as int)]);
    r
}

/// Render an unsigned number in decimal.
pub fn u64_string(n: u64) -> (r: String)
    ensures
        r@ == dec_rep(n as nat),
    decreases n,
{
    if n < 10 {
        let r = digit_str(n).to_owned();
        assert(r@ =~= dec_rep(n as nat));
        r
    } else {
        let mut r = u64_string(n / 10);
        r.append(digit_str(n % 10));
        assert(r@ =~= dec_rep(n as nat));
        r
    }
}

/// The number of non-overlapping occurrences of a non-empty pattern,
/// counted from the left.
pub open spec fn count_matches_pos(s: Seq<char>, pat: Seq<char>) -> nat
    decreases s.len(),
    when pat.len() > 0
    via count_matches_pos_decreases
{
    match find_first(s, pat) {
        None => 0,
        Some(i) => 1 + count_matches_pos(s.skip(i + pat.len()), pat),
    }
}

#[via_fn]
proof fn count_matches_pos_decreases(s: Seq<char>, pat: Seq<char>) {
    lemma_find_first_spec(s, pat);
}

/// How many times `pat` occurs in `s`, as the standard library's
/// matcher counts: an empty pattern matches between all characters and
/// at both ends.
pub open spec fn count_matches(s: Seq<char>, pat: Seq<char>) -> nat {
    if pat.len() == 0 {
        s.len() + 1
    } else {
        count_matches_pos(s, pat)
    }
}

/// Count non-overlapping occurrences of a non-empty pattern.
pub fn count_occurrences(s: &str, pat: &str) -> (r: usize)
    requires
        pat@.len() > 0,
    ensures
        r == count_matches(s@, pat@),
{
    let n = s.unicode_len();
    let plen = pat.unicode_len();
    let mut rest: String = s.to_owned();
    let mut count: usize = 0;
    loop
        invariant
            plen == pat@.len(),
            plen > 0,
            n == s@.len(),
            count + rest@.len() <= n,
            count + count_matches_pos(rest@, pat@) == count_matches_pos(s@, pat@),
        ensures
            count == count_matches_pos(s@, pat@),
        decreases rest@.len(),
    {
        proof {
            lemma_find_first_spec(rest@, pat@);
        }
        match find_str(rest.as_str(), pat) {
            None => {
                break;
            },
            Some(i) => {
                rest = suffix_from(rest.as_str(), i + plen);
                count += 1;
            },
        }
    }
    count
}

/// Replace the first occurrence of `pat` in `s` with `rep`: everything
/// before and after the occurrence is unchanged, byte for byte.
pub fn replace_first(s: &str, pat: &str, rep: &str) -> (r: Option<String>)
    ensures
        match find_first(s@, pat@) {
            Some(i) => r matches Some(t) && t@ == s@.take(i) + rep@ + s@.skip(i + pat@.len()),
            None => r is None,
        },
{
    proof {
        lemma_find_first_spec(s@, pat@);
    }
    let plen = pat.unicode_len();
    let n = s.unicode_len();
    match find_str(s, pat) {
        None => None,
        Some(i) => {
            assert(i + plen <= n);
            let mut t = prefix_to(s, i);
            t.append(rep);
            let suffix = suffix_from(s, i + plen);
            t.append(suffix.as_str());
            Some(t)
        },
    }
}

/// Lexicographic order on character sequences, by scalar value.
pub open spec fn lex_leq(a: Seq<char>, b: Seq<char>) -> bool
    decreases a.len(),
{
    if a.len() == 0 {
        true
    } else if b.len() == 0 {
        false
    } else if a[0] != b[0] {
        a[0] < b[0]
    } else {
        lex_leq(a.drop_first(), b.drop_first())
    }
}

/// The lexicographic order is reflexive.
pub proof fn lemma_lex_leq_refl(a: Seq<char>)
    ensures
        lex_leq(a, a),
    decreases a.len(),
{
    if a.len() > 0 {
        lemma_lex_leq_refl(a.drop_first());
    }
}

/// The lexicographic order is transitive.
pub proof fn lemma_lex_leq_trans(a: Seq<char>, b: Seq<char>, c: Seq<char>)
    requires
        lex_leq(a, b),
        lex_leq(b, c),
    ensures
        lex_leq(a, c),
    decreases a.len(),
{
    if a.len() > 0 {
        if a[0] == b[0] && b[0] == c[0] {
            lemma_lex_leq_trans(a.drop_first(), b.drop_first(), c.drop_first());
        }
    }
}

/// The lexicographic order is total.
pub proof fn lemma_lex_leq_total(a: Seq<char>, b: Seq<char>)
    ensures
        lex_leq(a, b) || lex_leq(b, a),
    decreases a.len(),
{
    if a.len() > 0 && b.len() > 0 && a[0] == b[0] {
        lemma_lex_leq_total(a.drop_first(), b.drop_first());
    }
}

/// Decide the lexicographic order on two strings.
pub fn str_leq(a: &str, b: &str) -> (r: bool)
    ensures
        r == lex_leq(a@, b@),
    decreases a@.len(),
{
    let an = a.unicode_len();
    let bn = b.unicode_len();
    let mut i: usize = 0;
    proof {
        assert(a@.skip(0) =~= a@);
        assert(b@.skip(0) =~= b@);
    }
    loop
        invariant
            0 <= i <= an,
            i <= bn,
            an == a@.len(),
            bn == b@.len(),
            lex_leq(a@, b@) == lex_leq(a@.skip(i as int), b@.skip(i as int)),
        ensures
            lex_leq(a@, b@) == lex_leq(a@.skip(i as int), b@.skip(i as int)),
            i == an || (i < an && i < bn && a@[i as int] != b@[i as int]) || (i == bn && i < an),
        decreases an - i,
    {
        proof {
            assert(a@.skip(0) =~= a@);
            assert(b@.skip(0) =~= b@);
        }
        if i >= an || i >= bn {
            break;
        }
        if a.get_char(i) != b.get_char(i) {
            break;
        }
        proof {
            assert(a@.skip(i as int)[0] == a@[i as int]);
            assert(b@.skip(i as int)[0] == b@[i as int]);
            assert(a@.skip(i as int).drop_first() =~= a@.skip(i + 1));
            assert(b@.skip(i as int).drop_first() =~= b@.skip(i + 1));
        }
        i += 1;
    }
    proof {
        assert(a@.skip(i as int).len() == a@.len() - i);
        assert(b@.skip(i as int).len() == b@.len() - i);
        if i < an && i < bn {
            assert(a@.skip(i as int)[0] == a@[i as int]);
            assert(b@.skip(i as int)[0] == b@[i as int]);
        }
    }
    if i >= an {
        true
    } else if i >= bn {
        false
    } else {
        a.get_char(i) < b.get_char(i)
    }
}

/// Render an unsigned 128-bit number in decimal.
pub fn u128_string(n: u128) -> (r: String)
    ensures
        r@ == dec_rep(n as nat),
    decreases n,
{
    if n < 10 {
        let r = digit_str(n as u64).to_owned();
        assert(r@ =~= dec_rep(n as nat));
        r
    } else {
        let mut r = u128_string(n / 10);
        r.append(digit_str((n % 10) as u64));
        assert(r@ =~= dec_rep(n as nat));
        r
    }
}

/// Render a signed number in decimal.
pub fn i64_string(n: i64) -> (r: String)
    ensures
        r@ == dec_rep_signed(n as int),
{
    if n >= 0 {
        u64_string(n as u64)
    } else {
        let mag: u64 = if n == i64::MIN {
            9223372036854775808u64
        } else {
            (-n) as u64
        };
        let mut r = String::new();
        r.append("-");
        let m = u64_string(mag);
        r.append(m.as_str());
        proof {
            reveal_strlit("-");
            assert(r@ =~= dec_rep_signed(n as int));
        }
        r
    }
}

} // verus!
