//! Text as sequences of characters: splitting at a separator, joining, and
//! decimal integers.
use vstd::prelude::*;

verus! {

/// `s` does not contain `c`.
pub open spec fn free_of(s: Seq<char>, c: char) -> bool {
    forall|i: int| 0 <= i < s.len() ==> s[i] != c
}

/// The pieces of `s` between occurrences of `sep`: one more piece than there are
/// separators, empty pieces included.
pub open spec fn split_on(s: Seq<char>, sep: char) -> Seq<Seq<char>>
    decreases s.len(),
{
    if s.len() == 0 {
        seq![Seq::empty()]
    } else {
        let prev = split_on(s.drop_last(), sep);
        if s.last() == sep {
            prev.push(Seq::empty())
        } else {
            prev.update(prev.len() - 1, prev.last().push(s.last()))
        }
    }
}

/// The pieces `ts` with `sep` between each two.
pub open spec fn join(ts: Seq<Seq<char>>, sep: char) -> Seq<char>
    decreases ts.len(),
{
    if ts.len() == 0 {
        Seq::empty()
    } else if ts.len() == 1 {
        ts[0]
    } else {
        join(ts.drop_last(), sep) + seq![sep] + ts.last()
    }
}

/// The lines `ls`, each followed by a line feed.
pub open spec fn terminated(ls: Seq<Seq<char>>) -> Seq<char>
    decreases ls.len(),
{
    if ls.len() == 0 {
        Seq::empty()
    } else {
        terminated(ls.drop_last()) + ls.last() + seq!['\n']
    }
}

pub proof fn lemma_terminated_concat(a: Seq<Seq<char>>, b: Seq<Seq<char>>)
    ensures
        terminated(a + b) == terminated(a) + terminated(b),
    decreases b.len(),
{
    if b.len() == 0 {
        assert(a + b =~= a);
        assert(terminated(a) + terminated(b) =~= terminated(a));
    } else {
        lemma_terminated_concat(a, b.drop_last());
        assert((a + b).drop_last() =~= a + b.drop_last());
        assert(terminated(a + b) =~= terminated(a) + terminated(b));
    }
}

pub proof fn lemma_terminated_one(l: Seq<char>)
    ensures
        terminated(seq![l]) == l + seq!['\n'],
{
    assert(seq![l].drop_last() =~= Seq::<Seq<char>>::empty());
    assert(terminated(Seq::<Seq<char>>::empty()) =~= Seq::<char>::empty());
    assert(terminated(seq![l]) =~= l + seq!['\n']);
}

pub proof fn lemma_split_nonempty(s: Seq<char>, sep: char)
    ensures
        split_on(s, sep).len() >= 1,
    decreases s.len(),
{
    if s.len() > 0 {
        lemma_split_nonempty(s.drop_last(), sep);
    }
}

/// Characters other than `sep` extend the last piece.
pub proof fn lemma_split_extend(a: Seq<char>, x: Seq<char>, sep: char)
    requires
        free_of(x, sep),
    ensures
        split_on(a + x, sep) == split_on(a, sep).update(
            split_on(a, sep).len() - 1,
            split_on(a, sep).last() + x,
        ),
    decreases x.len(),
{
    lemma_split_nonempty(a, sep);
    let p = split_on(a, sep);
    if x.len() == 0 {
        assert(a + x =~= a);
        assert(p.last() + x =~= p.last());
        assert(p.update(p.len() - 1, p.last() + x) =~= p);
    } else {
        let x2 = x.drop_last();
        lemma_split_extend(a, x2, sep);
        assert((a + x).drop_last() =~= a + x2);
        assert((a + x).last() == x.last());
        assert((p.last() + x2).push(x.last()) =~= p.last() + x);
        assert(split_on(a + x, sep) =~= p.update(p.len() - 1, p.last() + x));
    }
}

/// A separator followed by characters other than it starts a new piece.
pub proof fn lemma_split_sep(a: Seq<char>, x: Seq<char>, sep: char)
    requires
        free_of(x, sep),
    ensures
        split_on(a + seq![sep] + x, sep) == split_on(a, sep).push(x),
{
    let b = a + seq![sep];
    assert(b.drop_last() =~= a);
    lemma_split_extend(b, x, sep);
    let q = split_on(a, sep).push(Seq::empty());
    assert(q.update(q.len() - 1, q.last() + x) =~= split_on(a, sep).push(x));
}

/// Splitting undoes joining pieces that do not hold the separator.
pub proof fn lemma_split_join(ts: Seq<Seq<char>>, sep: char)
    requires
        ts.len() >= 1,
        forall|i: int| 0 <= i < ts.len() ==> free_of(#[trigger] ts[i], sep),
    ensures
        split_on(join(ts, sep), sep) == ts,
    decreases ts.len(),
{
    if ts.len() == 1 {
        lemma_split_extend(Seq::empty(), ts[0], sep);
        assert(Seq::<char>::empty() + ts[0] =~= ts[0]);
        assert(split_on(Seq::<char>::empty(), sep).update(0, Seq::<char>::empty() + ts[0]) =~= ts);
    } else {
        let init = ts.drop_last();
        assert forall|i: int| 0 <= i < init.len() implies free_of(#[trigger] init[i], sep) by {
            assert(init[i] == ts[i]);
        }
        lemma_split_join(init, sep);
        assert(free_of(ts[ts.len() - 1], sep));
        lemma_split_sep(join(init, sep), ts.last(), sep);
        assert(init.push(ts.last()) =~= ts);
    }
}

/// Splitting line-terminated lines at line feeds gives the lines and a last,
/// empty piece.
pub proof fn lemma_split_terminated(ls: Seq<Seq<char>>)
    requires
        forall|i: int| 0 <= i < ls.len() ==> free_of(#[trigger] ls[i], '\n'),
    ensures
        split_on(terminated(ls), '\n') == ls.push(Seq::empty()),
    decreases ls.len(),
{
    if ls.len() == 0 {
        assert(split_on(Seq::<char>::empty(), '\n') =~= ls.push(Seq::empty()));
    } else {
        let init = ls.drop_last();
        assert forall|i: int| 0 <= i < init.len() implies free_of(#[trigger] init[i], '\n') by {
            assert(init[i] == ls[i]);
        }
        lemma_split_terminated(init);
        let t = terminated(init);
        assert(free_of(ls[ls.len() - 1], '\n'));
        lemma_split_extend(t, ls.last(), '\n');
        let whole = t + ls.last() + seq!['\n'];
        assert(whole.drop_last() =~= t + ls.last());
        let q = init.push(Seq::empty());
        assert(q.update(q.len() - 1, q.last() + ls.last()) =~= ls);
    }
}

/// The texts held by a list of character vectors.
pub open spec fn views(v: Seq<Vec<char>>) -> Seq<Seq<char>> {
    v.map_values(|x: Vec<char>| x@)
}

/// Splits `s` at every `sep`.
pub fn split_chars(s: &Vec<char>, sep: char) -> (r: Vec<Vec<char>>)
    ensures
        views(r@) == split_on(s@, sep),
{
    let mut out: Vec<Vec<char>> = Vec::new();
    let mut cur: Vec<char> = Vec::new();
    let mut i: usize = 0;
    proof {
        assert(s@.subrange(0, 0) =~= Seq::<char>::empty());
    }
    while i < s.len()
        invariant
            i <= s@.len(),
            out@.len() + 1 == split_on(s@.subrange(0, i as int), sep).len(),
            forall|j: int|
                0 <= j < out@.len() ==> (#[trigger] out@[j])@ == split_on(
                    s@.subrange(0, i as int),
                    sep,
                )[j],
            cur@ == split_on(s@.subrange(0, i as int), sep).last(),
        decreases s@.len() - i,
    {
        let ghost before = split_on(s@.subrange(0, i as int), sep);
        proof {
            assert(s@.subrange(0, i + 1).drop_last() =~= s@.subrange(0, i as int));
            lemma_split_nonempty(s@.subrange(0, i as int), sep);
        }
        let c = s[i];
        if c == sep {
            out.push(cur);
            cur = Vec::new();
        } else {
            cur.push(c);
        }
        i = i + 1;
        proof {
            let after = split_on(s@.subrange(0, i as int), sep);
            assert(cur@ == after.last());
            assert forall|j: int| 0 <= j < out@.len() implies (#[trigger] out@[j])@ == after[j] by {}
        }
    }
    out.push(cur);
    proof {
        assert(s@.subrange(0, s@.len() as int) =~= s@);
        lemma_split_nonempty(s@, sep);
        assert(views(out@) =~= split_on(s@, sep));
    }
    out
}

/// Whether two character vectors hold the same text.
pub fn chars_eq(a: &Vec<char>, b: &Vec<char>) -> (r: bool)
    ensures
        r == (a@ == b@),
{
    if a.len() != b.len() {
        return false;
    }
    let mut i: usize = 0;
    while i < a.len()
        invariant
            i <= a@.len(),
            a@.len() == b@.len(),
            forall|j: int| 0 <= j < i ==> a@[j] == b@[j],
        decreases a@.len() - i,
    {
        if a[i] != b[i] {
            return false;
        }
        i = i + 1;
    }
    assert(a@ =~= b@);
    true
}

/// Appends the characters of `b` to `a`.
pub fn push_all(a: &mut Vec<char>, b: &Vec<char>)
    ensures
        final(a)@ == old(a)@ + b@,
{
    let mut i: usize = 0;
    while i < b.len()
        invariant
            i <= b@.len(),
            a@ == old(a)@ + b@.subrange(0, i as int),
        decreases b@.len() - i,
    {
        a.push(b[i]);
        i = i + 1;
        assert(a@ =~= old(a)@ + b@.subrange(0, i as int));
    }
    assert(b@.subrange(0, b@.len() as int) =~= b@);
}

/// `i` is the position of the first `c` in `s`.
pub open spec fn is_first(s: Seq<char>, c: char, i: int) -> bool {
    0 <= i < s.len() && s[i] == c && free_of(s.subrange(0, i), c)
}

/// The text before the first `c` and the text after it, if `s` holds a `c`.
pub open spec fn split_once(s: Seq<char>, c: char) -> Option<(Seq<char>, Seq<char>)> {
    if free_of(s, c) {
        None
    } else {
        let i = choose|i: int| is_first(s, c, i);
        Some((s.subrange(0, i), s.subrange(i + 1, s.len() as int)))
    }
}

/// Splitting once at the first `c`, when it stands at `k`.
pub proof fn lemma_split_once_at(s: Seq<char>, c: char, k: int)
    requires
        is_first(s, c, k),
    ensures
        split_once(s, c) == Some((s.subrange(0, k), s.subrange(k + 1, s.len() as int))),
{
    assert(!free_of(s, c));
    let j = choose|i: int| is_first(s, c, i);
    if j < k {
        assert(s.subrange(0, k)[j] == c);
    } else if j > k {
        assert(s.subrange(0, j)[k] == c);
    }
}

/// The characters of `s` from `from` up to `to`.
pub fn copy_range(s: &Vec<char>, from: usize, to: usize) -> (r: Vec<char>)
    requires
        from <= to <= s@.len(),
    ensures
        r@ == s@.subrange(from as int, to as int),
{
    let mut r: Vec<char> = Vec::new();
    let mut i: usize = from;
    while i < to
        invariant
            from <= i <= to,
            to <= s@.len(),
            r@ == s@.subrange(from as int, i as int),
        decreases to - i,
    {
        r.push(s[i]);
        i = i + 1;
        assert(r@ =~= s@.subrange(from as int, i as int));
    }
    r
}

/// Splits `s` at its first `c`.
pub fn split_once_chars(s: &Vec<char>, c: char) -> (r: Option<(Vec<char>, Vec<char>)>)
    ensures
        match r {
            Some((a, b)) => split_once(s@, c) == Some((a@, b@)),
            None => split_once(s@, c) is None,
        },
{
    let mut i: usize = 0;
    while i < s.len()
        invariant
            i <= s@.len(),
            free_of(s@.subrange(0, i as int), c),
        decreases s@.len() - i,
    {
        if s[i] == c {
            let a = copy_range(s, 0, i);
            let b = copy_range(s, i + 1, s.len());
            proof {
                assert(is_first(s@, c, i as int));
                lemma_split_once_at(s@, c, i as int);
            }
            return Some((a, b));
        }
        i = i + 1;
        assert(free_of(s@.subrange(0, i as int), c)) by {
            assert forall|j: int| 0 <= j < i implies s@.subrange(0, i as int)[j] != c by {
                if j < i - 1 {
                    assert(s@.subrange(0, i - 1)[j] == s@[j]);
                }
            }
        }
    }
    assert(s@.subrange(0, s@.len() as int) =~= s@);
    None
}

pub open spec fn is_digit(c: char) -> bool {
    '0' <= c <= '9'
}

pub open spec fn all_digits(s: Seq<char>) -> bool {
    forall|i: int| 0 <= i < s.len() ==> is_digit(s[i])
}

/// The value of a run of decimal digits.
pub open spec fn digits_value(s: Seq<char>) -> int
    decreases s.len(),
{
    if s.len() == 0 {
        0
    } else {
        digits_value(s.drop_last()) * 10 + (s.last() as int - '0' as int)
    }
}

/// What `str::parse::<i32>` gives: an optional sign and at least one digit, the
/// value in range.
pub open spec fn parse_i32(s: Seq<char>) -> Option<i32> {
    if s.len() > 0 && (s[0] == '-' || s[0] == '+') {
        let body = s.drop_first();
        if body.len() > 0 && all_digits(body) {
            let v = if s[0] == '-' {
                -digits_value(body)
            } else {
                digits_value(body)
            };
            if i32::MIN <= v <= i32::MAX {
                Some(v as i32)
            } else {
                None
            }
        } else {
            None
        }
    } else if s.len() > 0 && all_digits(s) {
        let v = digits_value(s);
        if v <= i32::MAX {
            Some(v as i32)
        } else {
            None
        }
    } else {
        None
    }
}

pub open spec fn digit_char(d: int) -> char {
    ('0' as int + d) as char
}

/// The decimal digits of `n`, without leading zeros.
pub open spec fn nat_text(n: nat) -> Seq<char>
    decreases n,
{
    if n < 10 {
        seq![digit_char(n as int)]
    } else {
        nat_text(n / 10).push(digit_char(n as int % 10))
    }
}

/// `v` in decimal, with a leading `-` when negative.
pub open spec fn int_text(v: int) -> Seq<char> {
    if v < 0 {
        seq!['-'] + nat_text((-v) as nat)
    } else {
        nat_text(v as nat)
    }
}

pub proof fn lemma_digits_value_prefix(s: Seq<char>, i: int)
    requires
        all_digits(s),
        0 <= i <= s.len(),
    ensures
        0 <= digits_value(s.subrange(0, i)) <= digits_value(s),
    decreases s.len(),
{
    if s.len() > 0 {
        if i == s.len() {
            assert(s.subrange(0, i) =~= s);
            lemma_digits_value_prefix(s.drop_last(), s.len() - 1);
            assert(s.drop_last().subrange(0, s.len() - 1) =~= s.drop_last());
        } else {
            lemma_digits_value_prefix(s.drop_last(), i);
            assert(s.drop_last().subrange(0, i) =~= s.subrange(0, i));
        }
    } else {
        assert(s.subrange(0, i) =~= s);
    }
}

pub proof fn lemma_nat_text(n: nat)
    ensures
        nat_text(n).len() >= 1,
        all_digits(nat_text(n)),
        digits_value(nat_text(n)) == n,
    decreases n,
{
    let d = n as int % 10;
    assert(digit_char(d) as int == '0' as int + d);
    let t = nat_text(n);
    assert(t.last() == digit_char(d));
    if n < 10 {
        assert(t.drop_last() =~= Seq::<char>::empty());
        assert(digits_value(t) == digits_value(t.drop_last()) * 10 + (t.last() as int - '0' as int));
    } else {
        lemma_nat_text(n / 10);
        assert(t.drop_last() =~= nat_text(n / 10));
        assert(n == (n / 10) * 10 + d);
        assert(digits_value(t) == digits_value(t.drop_last()) * 10 + (t.last() as int - '0' as int));
    }
}

/// Parsing gives back what formatting wrote.
pub proof fn lemma_parse_int_text(v: i32)
    ensures
        parse_i32(int_text(v as int)) == Some(v),
{
    if v < 0 {
        let body = nat_text((-v) as nat);
        lemma_nat_text((-v) as nat);
        assert(int_text(v as int).drop_first() =~= body);
    } else {
        lemma_nat_text(v as nat);
        assert(is_digit(int_text(v as int)[0]));
    }
}

fn digit_to_char(d: u64) -> (c: char)
    requires
        d < 10,
    ensures
        c == digit_char(d as int),
{
    match d {
        0 => '0',
        1 => '1',
        2 => '2',
        3 => '3',
        4 => '4',
        5 => '5',
        6 => '6',
        7 => '7',
        8 => '8',
        _ => '9',
    }
}

fn push_nat(out: &mut Vec<char>, n: u64)
    ensures
        final(out)@ == old(out)@ + nat_text(n as nat),
    decreases n,
{
    if n >= 10 {
        push_nat(out, n / 10);
    }
    let c = digit_to_char(n % 10);
    out.push(c);
    if n >= 10 {
        assert(out@ =~= old(out)@ + nat_text(n as nat));
    } else {
        assert(out@ =~= old(out)@ + nat_text(n as nat));
    }
}

/// Appends `v` in decimal.
pub fn push_i32(out: &mut Vec<char>, v: i32)
    ensures
        final(out)@ == old(out)@ + int_text(v as int),
{
    if v < 0 {
        out.push('-');
        let m: i64 = -(v as i64);
        push_nat(out, m as u64);
        assert(out@ =~= old(out)@ + int_text(v as int));
    } else {
        push_nat(out, v as u64);
    }
}

fn char_digit(c: char) -> (r: Option<i64>)
    ensures
        match r {
            Some(d) => is_digit(c) && d == c as int - '0' as int,
            None => !is_digit(c),
        },
{
    match c {
        '0' => Some(0),
        '1' => Some(1),
        '2' => Some(2),
        '3' => Some(3),
        '4' => Some(4),
        '5' => Some(5),
        '6' => Some(6),
        '7' => Some(7),
        '8' => Some(8),
        '9' => Some(9),
        _ => None,
    }
}

/// Reads a decimal `i32` as `str::parse` does.
pub fn parse_i32_chars(s: &Vec<char>) -> (r: Option<i32>)
    ensures
        r == parse_i32(s@),
{
    let n = s.len();
    if n == 0 {
        return None;
    }
    let neg = s[0] == '-';
    let start: usize = if s[0] == '-' || s[0] == '+' {
        1
    } else {
        0
    };
    if start == n {
        return None;
    }
    let ghost body = s@.subrange(start as int, n as int);
    proof {
        if start == 1 {
            assert(body =~= s@.drop_first());
        } else {
            assert(body =~= s@);
        }
    }
    let mut acc: i64 = 0;
    let mut i: usize = start;
    while i < n
        invariant
            start <= i <= n,
            n == s@.len(),
            body == s@.subrange(start as int, n as int),
            start == 0 || start == 1,
            start == 1 ==> body == s@.drop_first(),
            start == 0 ==> body == s@,
            (start == 1) == (s@[0] == '-' || s@[0] == '+'),
            neg == (s@[0] == '-'),
            all_digits(body.subrange(0, i - start)),
            acc == digits_value(body.subrange(0, i - start)),
            0 <= acc <= 0x8000_0000,
        decreases n - i,
    {
        let c = s[i];
        let d = match char_digit(c) {
            Some(d) => d,
            None => {
                proof {
                    assert(body[i - start] == c);
                    assert(!all_digits(body));
                }
                return None;
            },
        };
        proof {
            assert(body.subrange(0, i - start + 1).drop_last() =~= body.subrange(0, i - start));
            assert(body.subrange(0, i - start + 1).last() == c);
        }
        acc = acc * 10 + d;
        i = i + 1;
        assert(acc == digits_value(body.subrange(0, i - start)));
        if acc > 0x8000_0000 {
            proof {
                if all_digits(body) {
                    lemma_digits_value_prefix(body, i - start);
                    assert(digits_value(body) > 0x8000_0000);
                    if start == 1 {
                        assert(s@.drop_first() == body);
                    } else {
                        assert(s@ == body);
                    }
                }
                assert(parse_i32(s@) is None);
            }
            return None;
        }
    }
    proof {
        assert(body.subrange(0, n - start) =~= body);
    }
    if neg {
        Some((-acc) as i32)
    } else if acc > 0x7fff_ffff {
        None
    } else {
        Some(acc as i32)
    }
}

} // verus!
