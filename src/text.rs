//! Plain text handling over character sequences: line splitting, whitespace
//! tokens, substring search and decimal numbers, each with the meaning that
//! Rust's `str::lines`, `str::split_whitespace`, `str::contains` and integer
//! formatting give it.
use vstd::prelude::*;

verus! {

/// The Unicode `White_Space` property, which `char::is_whitespace` tests.
pub open spec fn is_ws(c: char) -> bool {
    let u = c as u32;
    (0x09 <= u <= 0x0d) || u == 0x20 || u == 0x85 || u == 0xa0 || u == 0x1680 || (0x2000 <= u
        <= 0x200a) || u == 0x2028 || u == 0x2029 || u == 0x202f || u == 0x205f || u == 0x3000
}

/// A line without the carriage return that ends it, if any.
pub open spec fn strip_cr(l: Seq<char>) -> Seq<char> {
    if l.len() > 0 && l.last() == '\r' {
        l.drop_last()
    } else {
        l
    }
}

/// After reading `s`: the lines it has finished, and the line still open.
pub open spec fn line_scan(s: Seq<char>) -> (Seq<Seq<char>>, Seq<char>)
    decreases s.len(),
{
    if s.len() == 0 {
        (seq![], seq![])
    } else {
        let (done, cur) = line_scan(s.drop_last());
        if s.last() == '\n' {
            (done.push(strip_cr(cur)), seq![])
        } else {
            (done, cur.push(s.last()))
        }
    }
}

/// The lines of `s`: split at `\n`, a `\r` before it dropped, and no empty
/// last line for a text that ends with a line break.
pub open spec fn lines(s: Seq<char>) -> Seq<Seq<char>> {
    let (done, cur) = line_scan(s);
    if cur.len() == 0 {
        done
    } else {
        done.push(cur)
    }
}

/// After reading `s`: the whitespace-separated tokens it has finished, and the
/// token still open.
pub open spec fn token_scan(s: Seq<char>) -> (Seq<Seq<char>>, Seq<char>)
    decreases s.len(),
{
    if s.len() == 0 {
        (seq![], seq![])
    } else {
        let (done, cur) = token_scan(s.drop_last());
        if is_ws(s.last()) {
            if cur.len() == 0 {
                (done, cur)
            } else {
                (done.push(cur), seq![])
            }
        } else {
            (done, cur.push(s.last()))
        }
    }
}

/// The maximal runs of non-whitespace characters of `s`, in order.
pub open spec fn tokens(s: Seq<char>) -> Seq<Seq<char>> {
    let (done, cur) = token_scan(s);
    if cur.len() == 0 {
        done
    } else {
        done.push(cur)
    }
}

/// `m` occurs in `s` at position `k`.
pub open spec fn occurs_at(s: Seq<char>, m: Seq<char>, k: int) -> bool {
    0 <= k && k + m.len() <= s.len() && s.subrange(k, k + m.len()) == m
}

/// `m` occurs somewhere in `s`.
pub open spec fn has_sub(s: Seq<char>, m: Seq<char>) -> bool {
    exists|k: int| occurs_at(s, m, k)
}

/// `s` begins with `p`.
pub open spec fn has_prefix(s: Seq<char>, p: Seq<char>) -> bool {
    p.len() <= s.len() && s.subrange(0, p.len() as int) == p
}

/// The character of a decimal digit.
pub open spec fn digit(d: nat) -> char {
    ((d % 10) + 48) as char
}

/// The decimal numeral of `n`, without sign or leading zeros.
pub open spec fn decimal(n: nat) -> Seq<char>
    decreases n,
{
    if n < 10 {
        seq![digit(n)]
    } else {
        decimal(n / 10).push(digit(n % 10))
    }
}

/// `s` holds no `c`.
pub open spec fn free_of(s: Seq<char>, c: char) -> bool {
    forall|k: int| 0 <= k < s.len() ==> s[k] != c
}

/// The lines `ls`, each followed by a line break.
pub open spec fn joined(ls: Seq<Seq<char>>) -> Seq<char>
    decreases ls.len(),
{
    if ls.len() == 0 {
        seq![]
    } else {
        joined(ls.drop_last()) + ls.last().push('\n')
    }
}

/// Reading `b` after a text `a` that ends on a line break finishes the lines
/// of `a`, then those of `b`.
pub proof fn lemma_line_scan_concat(a: Seq<char>, b: Seq<char>)
    requires
        line_scan(a).1 == Seq::<char>::empty(),
    ensures
        line_scan(a + b) == (line_scan(a).0 + line_scan(b).0, line_scan(b).1),
    decreases b.len(),
{
    if b.len() == 0 {
        assert(a + b =~= a);
        assert(line_scan(a).0 + line_scan(b).0 =~= line_scan(a).0);
    } else {
        let b0 = b.drop_last();
        lemma_line_scan_concat(a, b0);
        assert((a + b).drop_last() =~= a + b0);
        assert((a + b).last() == b.last());
        let (d, c) = line_scan(b0);
        if b.last() == '\n' {
            assert(line_scan(a).0 + d.push(strip_cr(c)) =~= (line_scan(a).0 + d).push(strip_cr(c)));
        }
    }
}

/// A text without line breaks is one open line.
pub proof fn lemma_line_scan_single(l: Seq<char>)
    requires
        free_of(l, '\n'),
    ensures
        line_scan(l) == (Seq::<Seq<char>>::empty(), l),
    decreases l.len(),
{
    if l.len() > 0 {
        lemma_line_scan_single(l.drop_last());
        assert(l.drop_last().push(l.last()) =~= l);
    }
}

/// No line that reading `p` yields holds a line break, and none holds a
/// carriage return when `p` holds none.
pub proof fn lemma_line_scan_pieces(p: Seq<char>)
    ensures
        forall|j: int| 0 <= j < line_scan(p).0.len() ==> free_of(#[trigger] line_scan(p).0[j], '\n'),
        free_of(line_scan(p).1, '\n'),
        free_of(p, '\r') ==> forall|j: int|
            0 <= j < line_scan(p).0.len() ==> free_of(#[trigger] line_scan(p).0[j], '\r'),
        free_of(p, '\r') ==> free_of(line_scan(p).1, '\r'),
    decreases p.len(),
{
    if p.len() > 0 {
        let q = p.drop_last();
        lemma_line_scan_pieces(q);
        let (d, c) = line_scan(q);
        if free_of(p, '\r') {
            assert(free_of(q, '\r'));
        }
        if p.last() == '\n' {
            let l = strip_cr(c);
            assert forall|k: int| 0 <= k < l.len() implies l[k] == c[k] by {}
            assert(d.push(l).last() == l);
        }
    }
}

/// Rejoining the finished lines of a text without carriage returns, and
/// adding the open one, gives the text back.
pub proof fn lemma_line_scan_rejoin(p: Seq<char>)
    requires
        free_of(p, '\r'),
    ensures
        joined(line_scan(p).0) + line_scan(p).1 == p,
    decreases p.len(),
{
    if p.len() > 0 {
        let q = p.drop_last();
        assert(free_of(q, '\r'));
        lemma_line_scan_rejoin(q);
        lemma_line_scan_pieces(q);
        let (d, c) = line_scan(q);
        if p.last() == '\n' {
            assert(strip_cr(c) == c);
            assert(d.push(c).drop_last() =~= d);
            assert(joined(d.push(c)) + Seq::<char>::empty() =~= q.push('\n'));
        } else {
            assert(joined(d) + c.push(p.last()) =~= q.push(p.last()));
        }
        assert(q.push(p.last()) =~= p);
    }
}

/// Every character of a decimal numeral is a digit `0` to `9`, and a
/// numeral of a number from 10 up has at least two of them.
pub proof fn lemma_decimal_digits(n: nat)
    ensures
        forall|k: int|
            0 <= k < decimal(n).len() ==> '0' <= #[trigger] decimal(n)[k] && decimal(n)[k] <= '9',
        decimal(n).len() >= 1,
        n >= 10 ==> decimal(n).len() >= 2,
    decreases n,
{
    if n >= 10 {
        lemma_decimal_digits(n / 10);
    }
    assert((((n % 10) + 48) as char) as u32 == (n % 10) + 48);
}

/// Different numbers have different decimal numerals.
pub proof fn lemma_decimal_injective(a: nat, b: nat)
    requires
        a != b,
    ensures
        decimal(a) != decimal(b),
    decreases a + b,
{
    lemma_decimal_digits(a);
    lemma_decimal_digits(b);
    if a >= 10 && b >= 10 {
        if decimal(a) == decimal(b) {
            let (da, db) = (decimal(a), decimal(b));
            assert(da.last() == digit(a % 10));
            assert(db.last() == digit(b % 10));
            assert((((a % 10) + 48) as char) as u32 == (a % 10) + 48);
            assert((((b % 10) + 48) as char) as u32 == (b % 10) + 48);
            assert(a % 10 == b % 10);
            assert(da.drop_last() =~= decimal(a / 10));
            assert(db.drop_last() =~= decimal(b / 10));
            assert(a / 10 != b / 10);
            lemma_decimal_injective(a / 10, b / 10);
        }
    } else if a < 10 && b < 10 {
        assert(decimal(a)[0] == digit(a));
        assert(decimal(b)[0] == digit(b));
        assert(((a + 48) as char) as u32 == a + 48);
        assert(((b + 48) as char) as u32 == b + 48);
    }
}

/// Relies on `String::push`: appends one character.
#[verifier::external_body]
pub(crate) fn push_char(s: &mut String, c: char)
    ensures
        final(s)@ == old(s)@.push(c),
{
    s.push(c)
}

/// The Unicode `White_Space` property of `c`.
pub fn is_whitespace(c: char) -> (b: bool)
    ensures
        b == is_ws(c),
{
    let u = c as u32;
    (0x09 <= u && u <= 0x0d) || u == 0x20 || u == 0x85 || u == 0xa0 || u == 0x1680 || (0x2000 <= u
        && u <= 0x200a) || u == 0x2028 || u == 0x2029 || u == 0x202f || u == 0x205f || u == 0x3000
}

/// The characters of `s`.
pub fn chars_of(s: &str) -> (r: Vec<char>)
    ensures
        r@ == s@,
{
    let mut r: Vec<char> = Vec::new();
    for c in it: s.chars()
        invariant
            it.seq() == s@,
            r@ == s@.subrange(0, it.index() as int),
    {
        r.push(c);
        assert(r@ =~= s@.subrange(0, it.index() + 1));
    }
    assert(r@ =~= s@);
    r
}

/// A string holding the characters of `v`.
pub fn string_of(v: &Vec<char>) -> (r: String)
    ensures
        r@ == v@,
{
    let mut r = String::new();
    for i in 0..v.len()
        invariant
            r@ == v@.subrange(0, i as int),
    {
        push_char(&mut r, v[i]);
        assert(r@ =~= v@.subrange(0, i + 1));
    }
    assert(r@ =~= v@);
    r
}

/// Appends the characters of `v` to `out`.
pub fn push_chars(out: &mut String, v: &Vec<char>)
    ensures
        final(out)@ == old(out)@ + v@,
{
    for i in 0..v.len()
        invariant
            out@ == old(out)@ + v@.subrange(0, i as int),
    {
        push_char(out, v[i]);
        assert(out@ =~= old(out)@ + v@.subrange(0, i + 1));
    }
    assert(v@.subrange(0, v@.len() as int) =~= v@);
}

/// Appends the decimal numeral of `n` to `out`.
pub fn push_decimal(out: &mut String, n: u64)
    ensures
        final(out)@ == old(out)@ + decimal(n as nat),
    decreases n,
{
    if n >= 10 {
        push_decimal(out, n / 10);
    }
    let d = (n % 10) as u8;
    push_char(out, (d + 48) as char);
    assert(out@ =~= old(out)@ + decimal(n as nat));
}

/// The lines of `s`, as `str::lines` splits them.
pub fn split_lines(s: &str) -> (r: Vec<Vec<char>>)
    ensures
        r@.map_values(|l: Vec<char>| l@) == lines(s@),
{
    let mut done: Vec<Vec<char>> = Vec::new();
    // The open line is `cur`, followed by a `\r` when `cr` holds.
    let mut cur: Vec<char> = Vec::new();
    let mut cr = false;
    for c in it: s.chars()
        invariant
            it.seq() == s@,
            done@.map_values(|l: Vec<char>| l@) == line_scan(s@.subrange(0, it.index() as int)).0,
            line_scan(s@.subrange(0, it.index() as int)).1 == (if cr {
                cur@.push('\r')
            } else {
                cur@
            }),
            !cr ==> !(cur@.len() > 0 && cur@.last() == '\r'),
    {
        let ghost pre = s@.subrange(0, it.index() as int);
        let ghost next = s@.subrange(0, it.index() + 1);
        assert(next.drop_last() =~= pre);
        if c == '\n' {
            assert(strip_cr(if cr { cur@.push('\r') } else { cur@ }) =~= cur@);
            done.push(cur);
            cur = Vec::new();
            cr = false;
            assert(done@.map_values(|l: Vec<char>| l@) =~= line_scan(next).0);
        } else if c == '\r' {
            if cr {
                cur.push('\r');
            }
            cr = true;
        } else {
            if cr {
                cur.push('\r');
            }
            cur.push(c);
            cr = false;
        }
    }
    assert(s@.subrange(0, s@.len() as int) =~= s@);
    if cr {
        cur.push('\r');
    }
    if cur.len() > 0 {
        done.push(cur);
    }
    assert(done@.map_values(|l: Vec<char>| l@) =~= lines(s@));
    done
}

/// The whitespace-separated tokens of `s`, as `str::split_whitespace` gives them.
pub fn split_tokens(s: &Vec<char>) -> (r: Vec<Vec<char>>)
    ensures
        r@.map_values(|t: Vec<char>| t@) == tokens(s@),
{
    let mut done: Vec<Vec<char>> = Vec::new();
    let mut cur: Vec<char> = Vec::new();
    for i in 0..s.len()
        invariant
            done@.map_values(|t: Vec<char>| t@) == token_scan(s@.subrange(0, i as int)).0,
            cur@ == token_scan(s@.subrange(0, i as int)).1,
    {
        let ghost next = s@.subrange(0, i + 1);
        assert(next.drop_last() =~= s@.subrange(0, i as int));
        let c = s[i];
        if is_whitespace(c) {
            if cur.len() > 0 {
                done.push(cur);
                cur = Vec::new();
                assert(done@.map_values(|t: Vec<char>| t@) =~= token_scan(next).0);
            }
        } else {
            cur.push(c);
        }
    }
    assert(s@.subrange(0, s@.len() as int) =~= s@);
    if cur.len() > 0 {
        done.push(cur);
    }
    assert(done@.map_values(|t: Vec<char>| t@) =~= tokens(s@));
    done
}

/// Whether `m` occurs at position `k` of `s`.
fn matches_at(s: &Vec<char>, m: &Vec<char>, k: usize) -> (b: bool)
    requires
        k + m@.len() <= s@.len(),
    ensures
        b == occurs_at(s@, m@, k as int),
{
    let mut j: usize = 0;
    while j < m.len()
        invariant
            k + m@.len() <= s.len(),
            j <= m@.len(),
            forall|t: int| 0 <= t < j ==> s@[k + t] == m@[t],
        decreases m@.len() - j,
    {
        if s[k + j] != m[j] {
            assert(s@.subrange(k as int, k + m@.len())[j as int] != m@[j as int]);
            return false;
        }
        j = j + 1;
    }
    assert(s@.subrange(k as int, k + m@.len()) =~= m@);
    true
}

/// Whether `m` occurs in `s`, as `str::contains` decides it.
pub fn contains_chars(s: &Vec<char>, m: &Vec<char>) -> (b: bool)
    ensures
        b == has_sub(s@, m@),
{
    if m.len() > s.len() {
        return false;
    }
    let last = s.len() - m.len();
    let mut k: usize = 0;
    loop
        invariant
            last == s@.len() - m@.len(),
            m@.len() <= s@.len(),
            k <= last,
            forall|t: int| 0 <= t < k ==> !occurs_at(s@, m@, t),
        decreases last - k,
    {
        if matches_at(s, m, k) {
            return true;
        }
        if k == last {
            return false;
        }
        k = k + 1;
    }
}

/// Whether `c` occurs in `s`.
pub fn contains_char(s: &Vec<char>, c: char) -> (b: bool)
    ensures
        b == s@.contains(c),
{
    for i in 0..s.len()
        invariant
            forall|t: int| 0 <= t < i ==> s@[t] != c,
    {
        if s[i] == c {
            return true;
        }
    }
    false
}

/// Whether `s` begins with `p`.
pub fn starts_with(s: &Vec<char>, p: &Vec<char>) -> (b: bool)
    ensures
        b == has_prefix(s@, p@),
{
    if p.len() > s.len() {
        return false;
    }
    let r = matches_at(s, p, 0);
    assert(r == has_prefix(s@, p@));
    r
}

} // verus!
