//! Character-level text utilities with exact specifications: decimal
//! formatting and parsing, whitespace trimming, substring search and
//! separator splitting.

use vstd::prelude::*;

verus! {

/// The decimal digit character for `d` (taken modulo ten).
pub open spec fn digit_char(d: nat) -> char {
    seq!['0', '1', '2', '3', '4', '5', '6', '7', '8', '9'][(d % 10) as int]
}

/// Decimal representation of a natural number, without leading zeros.
pub open spec fn decimal(n: nat) -> Seq<char>
    decreases n,
{
    if n < 10 {
        seq![digit_char(n)]
    } else {
        decimal(n / 10).push(digit_char(n % 10))
    }
}

/// Decimal representation of an integer, with a leading `-` when negative.
pub open spec fn signed_decimal(i: int) -> Seq<char> {
    if i < 0 {
        seq!['-'] + decimal((-i) as nat)
    } else {
        decimal(i as nat)
    }
}

fn digit_str(d: u64) -> (r: &'static str)
    requires
        d < 10,
    ensures
        r@ == seq![digit_char(d as nat)],
{
    proof {
        reveal_strlit("0");
        reveal_strlit("1");
        reveal_strlit("2");
        reveal_strlit("3");
        reveal_strlit("4");
        reveal_strlit("5");
        reveal_strlit("6");
        reveal_strlit("7");
        reveal_strlit("8");
        reveal_strlit("9");
    }
    match d {
        0 => "0",
        1 => "1",
        2 => "2",
        3 => "3",
        4 => "4",
        5 => "5",
        6 => "6",
        7 => "7",
        8 => "8",
        _ => "9",
    }
}

/// Appends the decimal representation of `n` to `s`.
pub fn push_decimal(s: &mut String, n: u64)
    ensures
        final(s)@ == old(s)@ + decimal(n as nat),
    decreases n,
{
    if n >= 10 {
        push_decimal(s, n / 10);
    }
    s.append(digit_str(n % 10));
    assert(s@ =~= old(s)@ + decimal(n as nat));
}


/// Appends the decimal representation of `i` (with `-` when negative) to `s`.
pub fn push_signed_decimal(s: &mut String, i: i64)
    ensures
        final(s)@ == old(s)@ + signed_decimal(i as int),
{
    if i < 0 {
        proof {
            reveal_strlit("-");
        }
        s.append("-");
        let m: u64 = ((-(i + 1)) as u64) + 1;
        push_decimal(s, m);
        assert(s@ =~= old(s)@ + signed_decimal(i as int));
    } else {
        push_decimal(s, i as u64);
    }
}

/// The characters of `s`, one by one.
pub fn chars_of(s: &str) -> (v: Vec<char>)
    ensures
        v@ == s@,
{
    let mut v: Vec<char> = Vec::new();
    for c in it: s.chars()
        invariant
            v@ == it.seq().take(it.index() as int),
    {
        v.push(c);
    }
    v
}


/// `c` is an ASCII decimal digit.
pub open spec fn is_ascii_digit(c: char) -> bool {
    48 <= (c as u32) <= 57
}

/// Numeric value of an ASCII digit character.
pub open spec fn digit_value(c: char) -> nat {
    ((c as u32) - 48) as nat
}

/// Every character of `s` is an ASCII digit.
pub open spec fn all_digits(s: Seq<char>) -> bool {
    forall|i: int| 0 <= i < s.len() ==> #[trigger] is_ascii_digit(s[i])
}

/// The number that a string of decimal digits denotes (most significant first).
pub open spec fn digits_value(s: Seq<char>) -> nat
    decreases s.len(),
{
    if s.len() == 0 {
        0
    } else {
        digits_value(s.drop_last()) * 10 + digit_value(s.last())
    }
}

/// The digits of an unsigned number as written: an optional leading `+` is dropped.
pub open spec fn unsigned_body(s: Seq<char>) -> Seq<char> {
    if s.len() > 0 && s[0] == '+' {
        s.drop_first()
    } else {
        s
    }
}

/// What parsing `s` as a `u32` gives: an optional `+`, then at least one
/// decimal digit and nothing else, denoting a value that fits in a `u32`.
pub open spec fn parsed_u32(s: Seq<char>) -> Option<u32> {
    let body = unsigned_body(s);
    if body.len() > 0 && all_digits(body) && digits_value(body) <= u32::MAX {
        Some(digits_value(body) as u32)
    } else {
        None
    }
}

proof fn lemma_digits_value_prefix(s: Seq<char>, j: int)
    requires
        all_digits(s),
        0 <= j <= s.len(),
    ensures
        digits_value(s.take(j)) <= digits_value(s),
    decreases s.len(),
{
    if j < s.len() {
        let t = s.drop_last();
        assert(all_digits(t)) by {
            assert forall|i: int| 0 <= i < t.len() implies #[trigger] is_ascii_digit(t[i]) by {
                assert(t[i] == s[i]);
            }
        }
        lemma_digits_value_prefix(t, j);
        assert(t.take(j) =~= s.take(j));
    } else {
        assert(s.take(j) =~= s);
    }
}

/// Parses `s` as a decimal `u32`, as `str::parse::<u32>` does.
pub fn parse_u32(s: &str) -> (r: Option<u32>)
    ensures
        r == parsed_u32(s@),
{
    let cs = chars_of(s);
    let mut start: usize = 0;
    if cs.len() > 0 && cs[0] == '+' {
        start = 1;
    }
    if start >= cs.len() {
        return None;
    }
    let ghost body = unsigned_body(cs@);
    assert(body =~= cs@.subrange(start as int, cs@.len() as int));
    let mut acc: u64 = 0;
    let mut i: usize = start;
    while i < cs.len()
        invariant
            start <= i <= cs@.len(),
            start < cs@.len(),
            cs@ == s@,
            body == unsigned_body(s@),
            body =~= cs@.subrange(start as int, cs@.len() as int),
            acc == digits_value(cs@.subrange(start as int, i as int)),
            acc <= u32::MAX,
            all_digits(cs@.subrange(start as int, i as int)),
        decreases cs.len() - i,
    {
        let c = cs[i];
        let code = c as u32;
        let ghost pre = cs@.subrange(start as int, i as int);
        let ghost next_pre = cs@.subrange(start as int, i + 1);
        assert(next_pre.drop_last() =~= pre);
        assert(body[i - start] == c);
        if code < 48 || code > 57 {
            assert(!is_ascii_digit(body[i - start]));
            return None;
        }
        let d = (code - 48) as u64;
        assert(acc * 10 + d <= 10 * 4294967295u64 + 9) by (nonlinear_arith)
            requires
                acc <= 4294967295u64,
                d <= 9,
        ;
        let next = acc * 10 + d;
        assert(all_digits(next_pre)) by {
            assert forall|k: int| 0 <= k < next_pre.len() implies #[trigger] is_ascii_digit(next_pre[k]) by {
                if k < pre.len() {
                    assert(next_pre[k] == pre[k]);
                }
            }
        }
        assert(next == digits_value(next_pre));
        if next > 4294967295u64 {
            proof {
                if all_digits(body) {
                    assert(body.take(i + 1 - start) =~= next_pre);
                    lemma_digits_value_prefix(body, i + 1 - start);
                }
            }
            return None;
        }
        acc = next;
        i = i + 1;
    }
    assert(cs@.subrange(start as int, i as int) =~= body);
    Some(acc as u32)
}


proof fn lemma_digit_char(d: nat)
    ensures
        is_ascii_digit(digit_char(d)),
        digit_value(digit_char(d)) == d % 10,
{
    let m = d % 10;
    if m == 0 {
    } else if m == 1 {
    } else if m == 2 {
    } else if m == 3 {
    } else if m == 4 {
    } else if m == 5 {
    } else if m == 6 {
    } else if m == 7 {
    } else if m == 8 {
    } else {
        assert(m == 9);
    }
}

/// The decimal representation of `n` consists of digits and denotes `n`.
pub proof fn lemma_decimal_digits(n: nat)
    ensures
        decimal(n).len() > 0,
        all_digits(decimal(n)),
        digits_value(decimal(n)) == n,
    decreases n,
{
    reveal_with_fuel(decimal, 2);
    lemma_digit_char(n % 10);
    if n < 10 {
        let d = decimal(n);
        assert(d.drop_last() =~= Seq::<char>::empty());
        assert(n % 10 == n);
        assert(d.last() == digit_char(n % 10));
        assert(digits_value(d) == digits_value(d.drop_last()) * 10 + digit_value(d.last()));
    }
    if n >= 10 {
        lemma_decimal_digits(n / 10);
        assert(n == (n / 10) * 10 + n % 10);
        let d = decimal(n);
        let p = decimal(n / 10);
        assert(d.drop_last() =~= p);
        assert(d.last() == digit_char(n % 10));
        assert(digit_value(d.last()) == n % 10);
        assert(digits_value(d) == digits_value(p) * 10 + digit_value(d.last()));
        assert(all_digits(d)) by {
            assert forall|i: int| 0 <= i < d.len() implies #[trigger] is_ascii_digit(d[i]) by {
                if i < p.len() {
                    assert(d[i] == p[i]);
                }
            }
        }
    }
}

/// Parsing the decimal representation of a `u32` gives it back.
pub proof fn lemma_parse_decimal(n: u32)
    ensures
        parsed_u32(decimal(n as nat)) == Some(n),
{
    lemma_decimal_digits(n as nat);
    let d = decimal(n as nat);
    assert(is_ascii_digit(d[0]));
    assert(unsigned_body(d) == d);
}

/// Characters that `char::is_whitespace` accepts: those with the Unicode
/// `White_Space` property.
pub open spec fn is_whitespace(c: char) -> bool {
    let u = c as u32;
    ||| 0x9 <= u <= 0xd
    ||| u == 0x20
    ||| u == 0x85
    ||| u == 0xa0
    ||| u == 0x1680
    ||| 0x2000 <= u <= 0x200a
    ||| u == 0x2028
    ||| u == 0x2029
    ||| u == 0x202f
    ||| u == 0x205f
    ||| u == 0x3000
}

fn is_whitespace_char(c: char) -> (b: bool)
    ensures
        b == is_whitespace(c),
{
    let u = c as u32;
    (0x9 <= u && u <= 0xd) || u == 0x20 || u == 0x85 || u == 0xa0 || u == 0x1680 || (0x2000 <= u
        && u <= 0x200a) || u == 0x2028 || u == 0x2029 || u == 0x202f || u == 0x205f || u == 0x3000
}

/// `s` without its leading whitespace.
pub open spec fn trim_start(s: Seq<char>) -> Seq<char>
    decreases s.len(),
{
    if s.len() > 0 && is_whitespace(s[0]) {
        trim_start(s.drop_first())
    } else {
        s
    }
}

/// `s` without its trailing whitespace.
pub open spec fn trim_end(s: Seq<char>) -> Seq<char>
    decreases s.len(),
{
    if s.len() > 0 && is_whitespace(s.last()) {
        trim_end(s.drop_last())
    } else {
        s
    }
}

/// `s` without leading and trailing whitespace, as `str::trim` gives it.
pub open spec fn trimmed(s: Seq<char>) -> Seq<char> {
    trim_end(trim_start(s))
}

proof fn lemma_trim_start_shape(s: Seq<char>)
    ensures
        trim_start(s).len() == 0 || !is_whitespace(trim_start(s)[0]),
        trim_start(s).len() <= s.len(),
        trim_start(s) == s.subrange(s.len() - trim_start(s).len(), s.len() as int),
    decreases s.len(),
{
    if s.len() > 0 && is_whitespace(s[0]) {
        lemma_trim_start_shape(s.drop_first());
        let t = trim_start(s.drop_first());
        assert(s.drop_first().subrange(s.len() - 1 - t.len(), s.len() - 1) =~= s.subrange(
            s.len() - t.len(),
            s.len() as int,
        ));
    } else {
        assert(s.subrange(0, s.len() as int) =~= s);
    }
}

proof fn lemma_trim_end_shape(s: Seq<char>)
    ensures
        trim_end(s).len() == 0 || !is_whitespace(trim_end(s).last()),
        trim_end(s).len() <= s.len(),
        trim_end(s) == s.take(trim_end(s).len() as int),
    decreases s.len(),
{
    if s.len() > 0 && is_whitespace(s.last()) {
        lemma_trim_end_shape(s.drop_last());
        let t = trim_end(s.drop_last());
        assert(s.drop_last().take(t.len() as int) =~= s.take(t.len() as int));
    } else {
        assert(s.take(s.len() as int) =~= s);
    }
}

/// Trimming a trimmed text changes nothing.
pub proof fn lemma_trim_idempotent(s: Seq<char>)
    ensures
        trimmed(trimmed(s)) == trimmed(s),
{
    let a = trim_start(s);
    lemma_trim_start_shape(s);
    let r = trim_end(a);
    lemma_trim_end_shape(a);
    if r.len() > 0 {
        assert(r[0] == a[0]);
        assert(trim_start(r) == r);
    } else {
        assert(trim_start(r) == r);
    }
    assert(trim_end(r) == r);
}

/// A copy of `s` without leading and trailing whitespace.
pub fn trim(s: &str) -> (r: String)
    ensures
        r@ == trimmed(s@),
{
    let cs = chars_of(s);
    let n = cs.len();
    let mut i: usize = 0;
    assert(s@.subrange(0, n as int) =~= s@);
    while i < n && is_whitespace_char(cs[i])
        invariant
            i <= n,
            n == cs@.len(),
            cs@ == s@,
            trim_start(s@) == trim_start(s@.subrange(i as int, n as int)),
        decreases n - i,
    {
        assert(s@.subrange(i as int, n as int).drop_first() =~= s@.subrange(i + 1, n as int));
        i = i + 1;
    }
    let ghost t = s@.subrange(i as int, n as int);
    assert(trim_start(t) == t);
    let mut j: usize = n;
    while j > i && is_whitespace_char(cs[j - 1])
        invariant
            i <= j <= n,
            n == cs@.len(),
            cs@ == s@,
            t == s@.subrange(i as int, n as int),
            trim_end(t) == trim_end(s@.subrange(i as int, j as int)),
        decreases j,
    {
        assert(s@.subrange(i as int, j as int).drop_last() =~= s@.subrange(i as int, j - 1));
        j = j - 1;
    }
    assert(trim_end(s@.subrange(i as int, j as int)) == s@.subrange(i as int, j as int));
    s.substring_char(i, j).to_owned()
}

/// `p` occurs in `s` starting at index `k`.
pub open spec fn occurs_at(s: Seq<char>, p: Seq<char>, k: int) -> bool {
    0 <= k && k + p.len() <= s.len() && s.subrange(k, k + p.len()) == p
}

/// The first index at or after `k` where `p` occurs in `s`.
pub open spec fn find_from(s: Seq<char>, p: Seq<char>, k: int) -> Option<int>
    decreases s.len() + 1 - k,
{
    if k < 0 || k + p.len() > s.len() {
        None
    } else if occurs_at(s, p, k) {
        Some(k)
    } else {
        find_from(s, p, k + 1)
    }
}

/// `p` occurs somewhere in `s`.
pub open spec fn contains(s: Seq<char>, p: Seq<char>) -> bool {
    find_from(s, p, 0) is Some
}

fn occurs_at_exec(s: &Vec<char>, p: &Vec<char>, k: usize) -> (b: bool)
    requires
        k + p@.len() <= s@.len(),
    ensures
        b == occurs_at(s@, p@, k as int),
{
    let mut j: usize = 0;
    let sl = s.len();
    while j < p.len()
        invariant
            sl == s@.len(),
            j <= p@.len(),
            k + p@.len() <= s@.len(),
            forall|m: int| 0 <= m < j ==> s@[k + m] == p@[m],
        decreases p.len() - j,
    {
        assert(k + j < s@.len());
        if s[k + j] != p[j] {
            assert(s@.subrange(k as int, k + p@.len())[j as int] != p@[j as int]);
            return false;
        }
        j = j + 1;
    }
    assert(s@.subrange(k as int, k + p@.len()) =~= p@);
    true
}

/// The first index at or after `from` where `p` occurs in `s`.
pub fn find_from_exec(s: &Vec<char>, p: &Vec<char>, from: usize) -> (r: Option<usize>)
    ensures
        r is Some <==> find_from(s@, p@, from as int) is Some,
        r matches Some(k) ==> find_from(s@, p@, from as int) == Some(k as int),
{
    let mut k: usize = from;
    if p.len() > s.len() || from > s.len() - p.len() {
        return None;
    }
    if p.len() == 0 {
        assert(s@.subrange(from as int, from as int) =~= p@);
        return Some(from);
    }
    while k <= s.len() - p.len()
        invariant
            from <= k,
            0 < p@.len(),
            p@.len() <= s@.len(),
            find_from(s@, p@, from as int) == find_from(s@, p@, k as int),
        decreases s.len() - k,
    {
        if occurs_at_exec(s, p, k) {
            return Some(k);
        }
        k = k + 1;
    }
    None
}


/// What `find_from` returns is an occurrence at or after the start.
pub proof fn lemma_find_from_bounds(s: Seq<char>, p: Seq<char>, k: int)
    requires
        0 <= k,
    ensures
        find_from(s, p, k) matches Some(r) ==> k <= r && occurs_at(s, p, r),
        find_from(s, p, k) is None ==> forall|m: int|
            k <= m ==> !#[trigger] occurs_at(s, p, m),
    decreases s.len() + 1 - k,
{
    if k + p.len() > s.len() {
    } else if occurs_at(s, p, k) {
    } else {
        lemma_find_from_bounds(s, p, k + 1);
    }
}

/// The text of the quoted comment in a statement: the characters between
/// the first `'` at or after the first `COMMENT` and the next `'`.
pub open spec fn quoted_comment(s: Seq<char>) -> Option<Seq<char>> {
    match find_from(s, "COMMENT"@, 0) {
        None => None,
        Some(c) => match find_from(s, seq!['\''], c) {
            None => None,
            Some(a) => match find_from(s, seq!['\''], a + 1) {
                None => None,
                Some(b) => Some(s.subrange(a + 1, b)),
            },
        },
    }
}

/// Extracts the quoted comment of a `SHOW CREATE` statement.
pub fn extract_comment(stmt: &str) -> (r: Option<String>)
    ensures
        match quoted_comment(stmt@) {
            Some(c) => r matches Some(x) && x@ == c,
            None => r is None,
        },
{
    proof {
        reveal_strlit("'");
    }
    let cs = chars_of(stmt);
    let keyword = chars_of("COMMENT");
    let quote = chars_of("'");
    let n = cs.len();
    assert(quote@ =~= seq!['\'']);
    match find_from_exec(&cs, &keyword, 0) {
        None => None,
        Some(c) => match find_from_exec(&cs, &quote, c) {
            None => None,
            Some(a) => {
                proof {
                    lemma_find_from_bounds(cs@, quote@, c as int);
                    assert(find_from(cs@, quote@, c as int) == Some(a as int));
                    assert(occurs_at(cs@, quote@, a as int));
                    assert(a + 1 <= n);
                }
                match find_from_exec(&cs, &quote, a + 1) {
                    None => None,
                    Some(b) => {
                        proof {
                            lemma_find_from_bounds(cs@, quote@, a + 1);
                            assert(find_from(cs@, quote@, a + 1) == Some(b as int));
                            assert(a + 1 <= b && b <= cs@.len());
                        }
                        Some(stmt.substring_char(a + 1, b).to_owned())
                    },
                }
            },
        },
    }
}

/// The pieces of `s` between separators, scanning from index `i` with the
/// current piece starting at `start`; empty pieces are dropped.
pub open spec fn split_pieces(s: Seq<char>, sep: char, start: int, i: int) -> Seq<Seq<char>>
    decreases s.len() - i,
{
    if !(0 <= start <= i) {
        seq![]
    } else if i >= s.len() {
        if start < s.len() {
            seq![s.subrange(start, s.len() as int)]
        } else {
            seq![]
        }
    } else if s[i] == sep {
        (if start < i {
            seq![s.subrange(start, i)]
        } else {
            seq![]
        }) + split_pieces(s, sep, i + 1, i + 1)
    } else {
        split_pieces(s, sep, start, i + 1)
    }
}

/// The non-empty pieces of `s` between occurrences of `sep`, in order, as
/// `s.split(sep).filter(|p| !p.is_empty())` yields them.
pub open spec fn nonempty_pieces(s: Seq<char>, sep: char) -> Seq<Seq<char>> {
    split_pieces(s, sep, 0, 0)
}

/// Splits `s` at every `sep` and keeps the non-empty pieces.
pub fn split_nonempty(s: &str, sep: char) -> (r: Vec<String>)
    ensures
        r@.len() == nonempty_pieces(s@, sep).len(),
        forall|k: int| 0 <= k < r@.len() ==> #[trigger] r@[k]@ == nonempty_pieces(s@, sep)[k],
{
    let cs = chars_of(s);
    let n = cs.len();
    let mut out: Vec<String> = Vec::new();
    let ghost mut views: Seq<Seq<char>> = seq![];
    let mut start: usize = 0;
    let mut i: usize = 0;
    while i < n
        invariant
            start <= i <= n,
            n == s@.len(),
            cs@ == s@,
            nonempty_pieces(s@, sep) == views + split_pieces(s@, sep, start as int, i as int),
            out@.len() == views.len(),
            forall|k: int| 0 <= k < out@.len() ==> #[trigger] out@[k]@ == views[k],
        decreases n - i,
    {
        if cs[i] == sep {
            let ghost rest = split_pieces(s@, sep, i + 1, i + 1);
            if start < i {
                let piece = s.substring_char(start, i).to_owned();
                proof {
                    assert(views + (seq![s@.subrange(start as int, i as int)] + rest) =~= (views.push(
                        s@.subrange(start as int, i as int),
                    )) + rest);
                    views = views.push(s@.subrange(start as int, i as int));
                }
                out.push(piece);
            } else {
                assert(views + (Seq::<Seq<char>>::empty() + rest) =~= views + rest);
            }
            start = i + 1;
        }
        i = i + 1;
    }
    if start < n {
        let piece = s.substring_char(start, n).to_owned();
        proof {
            views = views.push(s@.subrange(start as int, n as int));
        }
        out.push(piece);
    } else {
        assert(views + Seq::<Seq<char>>::empty() =~= views);
    }
    out
}


/// Scanning over characters other than the separator does not change the pieces.
pub proof fn lemma_split_scan(s: Seq<char>, sep: char, start: int, j: int)
    requires
        0 <= start <= j <= s.len(),
        forall|k: int| start <= k < j ==> s[k] != sep,
    ensures
        split_pieces(s, sep, start, start) == split_pieces(s, sep, start, j),
    decreases j - start,
{
    if j > start {
        lemma_split_scan(s, sep, start, j - 1);
    }
}

/// `s` does not contain `c`.
pub open spec fn free_of(s: Seq<char>, c: char) -> bool {
    forall|k: int| 0 <= k < s.len() ==> s[k] != c
}

/// Three non-empty separator-free texts, each preceded by the separator,
/// split back into those three texts.
pub proof fn lemma_three_pieces(a: Seq<char>, b: Seq<char>, c: Seq<char>, sep: char)
    requires
        a.len() > 0,
        b.len() > 0,
        c.len() > 0,
        free_of(a, sep),
        free_of(b, sep),
        free_of(c, sep),
    ensures
        nonempty_pieces(seq![sep] + a + seq![sep] + b + seq![sep] + c, sep) == seq![a, b, c],
{
    let s = seq![sep] + a + seq![sep] + b + seq![sep] + c;
    let p1: int = 1 + a.len() as int;
    let p2: int = p1 + 1 + b.len();
    assert(s[0] == sep);
    assert(s[p1] == sep);
    assert(s[p2] == sep);
    assert forall|k: int| 1 <= k < p1 implies s[k] != sep by {
        assert(s[k] == a[k - 1]);
    }
    assert forall|k: int| p1 + 1 <= k < p2 implies s[k] != sep by {
        assert(s[k] == b[k - p1 - 1]);
    }
    assert forall|k: int| p2 + 1 <= k < s.len() implies s[k] != sep by {
        assert(s[k] == c[k - p2 - 1]);
    }
    lemma_split_scan(s, sep, 1, p1);
    lemma_split_scan(s, sep, p1 + 1, p2);
    lemma_split_scan(s, sep, p2 + 1, s.len() as int);
    assert(s.subrange(1, p1) =~= a);
    assert(s.subrange(p1 + 1, p2) =~= b);
    assert(s.subrange(p2 + 1, s.len() as int) =~= c);
    let tail = split_pieces(s, sep, p2 + 1, p2 + 1);
    assert(tail == seq![c]);
    let mid = split_pieces(s, sep, p1 + 1, p1 + 1);
    assert(mid == seq![b] + tail);
    let head = split_pieces(s, sep, 1, 1);
    assert(head == seq![a] + mid);
    assert(split_pieces(s, sep, 0, 0) == Seq::<Seq<char>>::empty() + head);
    assert(nonempty_pieces(s, sep) =~= seq![a, b, c]);
}


/// Whether two texts are equal, character by character.
pub fn text_eq(a: &str, b: &str) -> (r: bool)
    ensures
        r == (a@ == b@),
{
    let x = chars_of(a);
    let y = chars_of(b);
    if x.len() != y.len() {
        return false;
    }
    let mut i: usize = 0;
    while i < x.len()
        invariant
            i <= x@.len(),
            x@.len() == y@.len(),
            x@ == a@,
            y@ == b@,
            forall|k: int| 0 <= k < i ==> x@[k] == y@[k],
        decreases x.len() - i,
    {
        if x[i] != y[i] {
            return false;
        }
        i = i + 1;
    }
    assert(x@ =~= y@);
    true
}

/// The items joined with `sep` between consecutive ones.
pub open spec fn joined(items: Seq<Seq<char>>, sep: Seq<char>) -> Seq<char>
    decreases items.len(),
{
    if items.len() == 0 {
        seq![]
    } else if items.len() == 1 {
        items[0]
    } else {
        joined(items.drop_last(), sep) + sep + items.last()
    }
}

/// The texts of a list of strings.
pub open spec fn texts(v: Seq<String>) -> Seq<Seq<char>> {
    v.map_values(|t: String| t@)
}

/// Appends `items` joined with `sep` to `s`.
pub fn push_joined(s: &mut String, items: &Vec<String>, sep: &str)
    ensures
        final(s)@ == old(s)@ + joined(texts(items@), sep@),
{
    let ghost start = s@;
    let ghost all = texts(items@);
    let mut i: usize = 0;
    while i < items.len()
        invariant
            i <= items@.len(),
            start == old(s)@,
            all == texts(items@),
            s@ == start + joined(all.take(i as int), sep@),
        decreases items.len() - i,
    {
        if i > 0 {
            s.append(sep);
        }
        s.append(items[i].as_str());
        proof {
            let next = all.take(i + 1);
            assert(next.drop_last() =~= all.take(i as int));
            assert(next.last() == items@[i as int]@);
            if i == 0 {
                assert(all.take(0) =~= Seq::<Seq<char>>::empty());
                assert(s@ =~= start + joined(next, sep@));
            } else {
                assert(s@ =~= start + joined(next, sep@));
            }
        }
        i = i + 1;
    }
    assert(all.take(items@.len() as int) =~= all);
}


/// How many times `c` occurs in `s`.
pub open spec fn count_char(s: Seq<char>, c: char) -> nat
    decreases s.len(),
{
    if s.len() == 0 {
        0
    } else {
        count_char(s.drop_last(), c) + if s.last() == c {
            1nat
        } else {
            0nat
        }
    }
}

/// Occurrences in a concatenation add up.
pub proof fn lemma_count_concat(a: Seq<char>, b: Seq<char>, c: char)
    ensures
        count_char(a + b, c) == count_char(a, c) + count_char(b, c),
    decreases b.len(),
{
    if b.len() == 0 {
        assert(a + b =~= a);
    } else {
        lemma_count_concat(a, b.drop_last(), c);
        assert((a + b).drop_last() =~= a + b.drop_last());
    }
}

/// Occurrences of `c` over all the items.
pub open spec fn total_count(items: Seq<Seq<char>>, c: char) -> nat
    decreases items.len(),
{
    if items.len() == 0 {
        0
    } else {
        total_count(items.drop_last(), c) + count_char(items.last(), c)
    }
}

/// Joining with a separator free of `c` adds no occurrence of `c`.
pub proof fn lemma_count_joined(items: Seq<Seq<char>>, sep: Seq<char>, c: char)
    requires
        count_char(sep, c) == 0,
    ensures
        count_char(joined(items, sep), c) == total_count(items, c),
    decreases items.len(),
{
    if items.len() == 0 {
        assert(count_char(Seq::<char>::empty(), c) == 0);
    } else if items.len() == 1 {
        assert(items.drop_last() =~= Seq::<Seq<char>>::empty());
        assert(total_count(items.drop_last(), c) == 0);
        assert(items.last() == items[0]);
    } else {
        lemma_count_joined(items.drop_last(), sep, c);
        lemma_count_concat(joined(items.drop_last(), sep), sep, c);
        lemma_count_concat(joined(items.drop_last(), sep) + sep, items.last(), c);
    }
}

} // verus!
