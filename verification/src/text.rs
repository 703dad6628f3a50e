//! Character-level string operations with their mathematical meaning.

use vstd::prelude::*;

verus! {

/// The characters of `s`, in order.
pub fn chars_of(s: &str) -> (v: Vec<char>)
    ensures
        v@ == s@,
{
    let n = s.unicode_len();
    let mut v: Vec<char> = Vec::new();
    let mut i: usize = 0;
    while i < n
        invariant
            n == s@.len(),
            0 <= i <= n,
            v@ == s@.take(i as int),
        decreases n - i,
    {
        v.push(s.get_char(i));
        i = i + 1;
        assert(v@ =~= s@.take(i as int));
    }
    assert(s@.take(n as int) =~= s@);
    v
}

/// The string made of the characters `cs`.
///
/// Trusted: collects the characters into a `String` (std's `FromIterator<&char>`);
/// claims that the string's characters are exactly `cs`.
#[verifier::external_body]
pub fn string_of(cs: &[char]) -> (s: String)
    ensures
        s@ == cs@,
{
    cs.iter().collect()
}

/// The characters of an optional string.
pub open spec fn opt_text(o: Option<String>) -> Option<Seq<char>> {
    match o {
        Some(s) => Some(s@),
        None => None,
    }
}

/// The decimal digit character of `d` (for `d < 10`).
pub open spec fn digit_char(d: nat) -> char {
    if d == 0 {
        '0'
    } else if d == 1 {
        '1'
    } else if d == 2 {
        '2'
    } else if d == 3 {
        '3'
    } else if d == 4 {
        '4'
    } else if d == 5 {
        '5'
    } else if d == 6 {
        '6'
    } else if d == 7 {
        '7'
    } else if d == 8 {
        '8'
    } else {
        '9'
    }
}

/// The decimal rendering of `n`, without sign or leading zeros (as `Display` prints it).
pub open spec fn decimal(n: nat) -> Seq<char>
    decreases n,
{
    if n < 10 {
        seq![digit_char(n)]
    } else {
        decimal(n / 10).push(digit_char(n % 10))
    }
}

fn digit(d: u64) -> (c: char)
    requires
        d < 10,
    ensures
        c == digit_char(d as nat),
{
    if d == 0 {
        '0'
    } else if d == 1 {
        '1'
    } else if d == 2 {
        '2'
    } else if d == 3 {
        '3'
    } else if d == 4 {
        '4'
    } else if d == 5 {
        '5'
    } else if d == 6 {
        '6'
    } else if d == 7 {
        '7'
    } else if d == 8 {
        '8'
    } else {
        '9'
    }
}

/// Appends the decimal rendering of `n` to `out`.
pub fn push_decimal(out: &mut Vec<char>, n: u64)
    ensures
        final(out)@ == old(out)@ + decimal(n as nat),
    decreases n,
{
    if n >= 10 {
        push_decimal(out, n / 10);
    }
    out.push(digit(n % 10));
    proof {
        if n >= 10 {
            assert(decimal(n as nat) == decimal((n / 10) as nat).push(digit_char((n % 10) as nat)));
        } else {
            assert(decimal(n as nat) == seq![digit_char(n as nat)]);
        }
    }
}

/// Appends the characters of `s` to `out`.
pub fn push_str(out: &mut Vec<char>, s: &str)
    ensures
        final(out)@ == old(out)@ + s@,
{
    let mut cs = chars_of(s);
    out.append(&mut cs);
}

/// Whether `a` and `b` hold the same characters.
pub fn same_text(a: &str, b: &str) -> (r: bool)
    ensures
        r == (a@ == b@),
{
    let x = chars_of(a);
    let y = chars_of(b);
    same_chars(&x, &y)
}

/// Whether two character vectors are equal.
pub fn same_chars(x: &Vec<char>, y: &Vec<char>) -> (r: bool)
    ensures
        r == (x@ == y@),
{
    if x.len() != y.len() {
        return false;
    }
    let mut i: usize = 0;
    while i < x.len()
        invariant
            x.len() == y.len(),
            0 <= i <= x.len(),
            forall|j: int| 0 <= j < i ==> x@[j] == y@[j],
        decreases x.len() - i,
    {
        if x[i] != y[i] {
            return false;
        }
        i = i + 1;
    }
    assert(x@ =~= y@);
    true
}

/// Whether `pat` occurs in `cs` at position `i`.
pub fn occurs_at(cs: &Vec<char>, i: usize, pat: &Vec<char>) -> (r: bool)
    requires
        i <= cs.len(),
    ensures
        r == (pat.len() <= cs.len() - i && cs@.subrange(i as int, i + pat.len()) == pat@),
{
    if pat.len() > cs.len() - i {
        return false;
    }
    let mut k: usize = 0;
    while k < pat.len()
        invariant
            pat.len() <= cs.len() - i,
            0 <= k <= pat.len(),
            forall|j: int| 0 <= j < k ==> cs@[i + j] == pat@[j],
        decreases pat.len() - k,
    {
        if cs[i + k] != pat[k] {
            assert(cs@.subrange(i as int, i + pat.len())[k as int] != pat@[k as int]);
            return false;
        }
        k = k + 1;
    }
    assert(cs@.subrange(i as int, i + pat.len()) =~= pat@);
    true
}

/// `s` with every non-overlapping occurrence of `pat`, scanned from the left,
/// replaced by `rep` (the meaning of `str::replace` for a non-empty pattern).
pub open spec fn replaced(s: Seq<char>, pat: Seq<char>, rep: Seq<char>) -> Seq<char>
    decreases s.len(),
{
    if pat.len() == 0 || s.len() < pat.len() {
        s
    } else if s.take(pat.len() as int) == pat {
        rep + replaced(s.skip(pat.len() as int), pat, rep)
    } else {
        seq![s[0]] + replaced(s.skip(1), pat, rep)
    }
}

proof fn lemma_replaced_short(s: Seq<char>, pat: Seq<char>, rep: Seq<char>)
    requires
        s.len() > 0,
        pat.len() > 0,
        s.len() < pat.len(),
    ensures
        replaced(s, pat, rep) == seq![s[0]] + replaced(s.skip(1), pat, rep),
{
    assert(seq![s[0]] + s.skip(1) =~= s);
}

/// `s` with every occurrence of `pat` replaced by `rep`.
pub fn replace_all(s: &str, pat: &str, rep: &str) -> (r: String)
    requires
        pat@.len() > 0,
    ensures
        r@ == replaced(s@, pat@, rep@),
{
    let cs = chars_of(s);
    let ps = chars_of(pat);
    let rs = chars_of(rep);
    let mut out: Vec<char> = Vec::new();
    let mut i: usize = 0;
    assert(cs@.skip(0) =~= cs@);
    assert(out@ + cs@ =~= cs@);
    while i < cs.len()
        invariant
            0 <= i <= cs.len(),
            ps@.len() > 0,
            cs@ == s@,
            ps@ == pat@,
            rs@ == rep@,
            out@ + replaced(cs@.skip(i as int), ps@, rs@) == replaced(cs@, ps@, rs@),
        decreases cs.len() - i,
    {
        let ghost rest = cs@.skip(i as int);
        if occurs_at(&cs, i, &ps) {
            assert(rest.take(ps.len() as int) =~= cs@.subrange(i as int, i + ps.len()));
            assert(rest.skip(ps.len() as int) =~= cs@.skip(i + ps.len()));
            let ghost before = out@;
            let mut r2 = rs.clone();
            out.append(&mut r2);
            i = i + ps.len();
            assert(out@ + replaced(cs@.skip(i as int), ps@, rs@) =~= before + (rs@ + replaced(
                rest.skip(ps.len() as int),
                ps@,
                rs@,
            )));
        } else {
            proof {
                if rest.len() < ps@.len() {
                    lemma_replaced_short(rest, ps@, rs@);
                } else {
                    assert(rest.take(ps.len() as int) =~= cs@.subrange(i as int, i + ps.len()));
                }
            }
            assert(rest.skip(1) =~= cs@.skip(i + 1));
            assert(rest[0] == cs@[i as int]);
            out.push(cs[i]);
            i = i + 1;
            assert(out@ + replaced(cs@.skip(i as int), ps@, rs@) =~= out@.drop_last() + (seq![
                rest[0],
            ] + replaced(rest.skip(1), ps@, rs@)));
        }
    }
    assert(cs@.skip(i as int) =~= Seq::<char>::empty());
    assert(out@ =~= out@ + replaced(cs@.skip(i as int), ps@, rs@));
    string_of(out.as_slice())
}

/// A class of characters: one given character, or the Unicode white space.
pub enum CharClass {
    Exactly(char),
    Space,
}

/// Whether `c` is white space in the sense of `char::is_whitespace`
/// (the Unicode `White_Space` property).
pub open spec fn is_space(c: char) -> bool {
    let n = c as u32;
    ||| 0x09 <= n <= 0x0d
    ||| n == 0x20
    ||| n == 0x85
    ||| n == 0xa0
    ||| n == 0x1680
    ||| 0x2000 <= n <= 0x200a
    ||| n == 0x2028
    ||| n == 0x2029
    ||| n == 0x202f
    ||| n == 0x205f
    ||| n == 0x3000
}

pub open spec fn in_class(cls: CharClass, c: char) -> bool {
    match cls {
        CharClass::Exactly(x) => c == x,
        CharClass::Space => is_space(c),
    }
}

fn class_has(cls: &CharClass, c: char) -> (r: bool)
    ensures
        r == in_class(*cls, c),
{
    match cls {
        CharClass::Exactly(x) => c == *x,
        CharClass::Space => {
            let n = c as u32;
            (0x09 <= n && n <= 0x0d) || n == 0x20 || n == 0x85 || n == 0xa0 || n == 0x1680 || (
            0x2000 <= n && n <= 0x200a) || n == 0x2028 || n == 0x2029 || n == 0x202f || n
                == 0x205f || n == 0x3000
        },
    }
}

/// `s` without its leading characters of class `cls`.
pub open spec fn drop_front(s: Seq<char>, cls: CharClass) -> Seq<char>
    decreases s.len(),
{
    if s.len() > 0 && in_class(cls, s[0]) {
        drop_front(s.drop_first(), cls)
    } else {
        s
    }
}

/// `s` without its trailing characters of class `cls`.
pub open spec fn drop_back(s: Seq<char>, cls: CharClass) -> Seq<char>
    decreases s.len(),
{
    if s.len() > 0 && in_class(cls, s.last()) {
        drop_back(s.drop_last(), cls)
    } else {
        s
    }
}

/// `s` without leading and trailing white space (the meaning of `str::trim`).
pub open spec fn trimmed(s: Seq<char>) -> Seq<char> {
    drop_back(drop_front(s, CharClass::Space), CharClass::Space)
}

/// Removes the leading characters of class `cls`.
pub fn strip_front(cs: &Vec<char>, cls: &CharClass) -> (r: Vec<char>)
    ensures
        r@ == drop_front(cs@, *cls),
{
    let mut i: usize = 0;
    assert(cs@.skip(0) =~= cs@);
    while i < cs.len() && class_has(cls, cs[i])
        invariant
            0 <= i <= cs.len(),
            drop_front(cs@, *cls) == drop_front(cs@.skip(i as int), *cls),
        decreases cs.len() - i,
    {
        assert(cs@.skip(i as int).drop_first() =~= cs@.skip(i + 1));
        i = i + 1;
    }
    let mut r: Vec<char> = Vec::new();
    let mut k: usize = i;
    while k < cs.len()
        invariant
            i <= k <= cs.len(),
            r@ == cs@.subrange(i as int, k as int),
        decreases cs.len() - k,
    {
        r.push(cs[k]);
        k = k + 1;
        assert(r@ =~= cs@.subrange(i as int, k as int));
    }
    assert(r@ =~= cs@.skip(i as int));
    r
}

/// Removes the trailing characters of class `cls`.
pub fn strip_back(cs: &Vec<char>, cls: &CharClass) -> (r: Vec<char>)
    ensures
        r@ == drop_back(cs@, *cls),
{
    let mut n: usize = cs.len();
    assert(cs@.take(n as int) =~= cs@);
    while n > 0 && class_has(cls, cs[n - 1])
        invariant
            0 <= n <= cs.len(),
            drop_back(cs@, *cls) == drop_back(cs@.take(n as int), *cls),
        decreases n,
    {
        assert(cs@.take(n as int).drop_last() =~= cs@.take(n - 1));
        n = n - 1;
    }
    let mut r: Vec<char> = Vec::new();
    let mut k: usize = 0;
    while k < n
        invariant
            n <= cs.len(),
            0 <= k <= n,
            r@ == cs@.take(k as int),
        decreases n - k,
    {
        r.push(cs[k]);
        k = k + 1;
        assert(r@ =~= cs@.take(k as int));
    }
    r
}

/// `s` with surrounding white space removed.
pub fn trim(cs: &Vec<char>) -> (r: Vec<char>)
    ensures
        r@ == trimmed(cs@),
{
    let a = strip_front(cs, &CharClass::Space);
    strip_back(&a, &CharClass::Space)
}

/// The pieces of `s` between the occurrences of `sep` (the meaning of `str::split`
/// with a character pattern): always at least one piece.
pub open spec fn split_on(s: Seq<char>, sep: char) -> Seq<Seq<char>>
    decreases s.len(),
{
    if s.len() == 0 {
        seq![Seq::<char>::empty()]
    } else {
        let init = split_on(s.drop_last(), sep);
        if s.last() == sep {
            init.push(Seq::<char>::empty())
        } else {
            init.update(init.len() - 1, init.last().push(s.last()))
        }
    }
}

/// Splits `cs` at every `sep`.
pub fn split(cs: &Vec<char>, sep: char) -> (r: Vec<String>)
    ensures
        r@.map_values(|p: String| p@) == split_on(cs@, sep),
{
    let mut parts: Vec<String> = Vec::new();
    let mut cur: Vec<char> = Vec::new();
    let mut i: usize = 0;
    assert(parts@.map_values(|p: String| p@).push(cur@) =~= split_on(cs@.take(0), sep));
    while i < cs.len()
        invariant
            0 <= i <= cs.len(),
            parts@.map_values(|p: String| p@).push(cur@) == split_on(cs@.take(i as int), sep),
        decreases cs.len() - i,
    {
        let ghost before = parts@.map_values(|p: String| p@).push(cur@);
        let c = cs[i];
        assert(cs@.take(i + 1).drop_last() =~= cs@.take(i as int));
        assert(cs@.take(i + 1).last() == c);
        if c == sep {
            let piece = string_of(cur.as_slice());
            parts.push(piece);
            cur = Vec::new();
            assert(parts@.map_values(|p: String| p@).push(cur@) =~= before.push(
                Seq::<char>::empty(),
            ));
        } else {
            cur.push(c);
            assert(parts@.map_values(|p: String| p@).push(cur@) =~= before.update(
                before.len() - 1,
                before.last().push(c),
            ));
        }
        i = i + 1;
    }
    let last = string_of(cur.as_slice());
    parts.push(last);
    assert(cs@.take(cs.len() as int) =~= cs@);
    assert(parts@.map_values(|p: String| p@) =~= split_on(cs@, sep));
    parts
}

} // verus!
