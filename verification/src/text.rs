use vstd::prelude::*;

verus! {

/// Appends one character to a string (`String::push`).
#[verifier::external_body]
pub(crate) fn push_char(s: &mut String, c: char)
    ensures
        final(s)@ == old(s)@.push(c),
{
    s.push(c);
}

/// The characters of a string slice, in order.
pub fn chars_of(s: &str) -> (v: Vec<char>)
    ensures
        v@ == s@,
{
    let mut v: Vec<char> = Vec::new();
    for c in it: s.chars()
        invariant
            v@ == it.seq().take(it.index() as int),
    {
        v.push(c);
    }
    v
}

/// Appends the characters `chars[from..to]` to `s`.
pub fn push_chars(s: &mut String, chars: &Vec<char>, from: usize, to: usize)
    requires
        from <= to <= chars.len(),
    ensures
        final(s)@ == old(s)@ + chars@.subrange(from as int, to as int),
{
    let mut i = from;
    while i < to
        invariant
            from <= i <= to <= chars.len(),
            s@ == old(s)@ + chars@.subrange(from as int, i as int),
        decreases to - i,
    {
        push_char(s, chars[i]);
        i = i + 1;
        assert(chars@.subrange(from as int, i as int) =~= chars@.subrange(from as int, (i - 1) as int).push(chars@[i - 1]));
    }
}

/// Appends the whole of `t` to `s`.
pub fn push_str(s: &mut String, t: &str)
    ensures
        final(s)@ == old(s)@ + t@,
{
    let chars = chars_of(t);
    push_chars(s, &chars, 0, chars.len());
    assert(chars@.subrange(0, chars@.len() as int) =~= chars@);
}

/// A string holding the given characters.
pub fn string_from_chars(chars: &Vec<char>) -> (r: String)
    ensures
        r@ == chars@,
{
    let mut r = String::new();
    push_chars(&mut r, chars, 0, chars.len());
    assert(chars@.subrange(0, chars@.len() as int) =~= chars@);
    r
}

/// A fresh string equal to `t`.
pub fn owned(t: &str) -> (r: String)
    ensures
        r@ == t@,
{
    let mut r = String::new();
    push_str(&mut r, t);
    assert(Seq::<char>::empty() + t@ =~= t@);
    r
}

/// Unicode `White_Space` characters, the set that `str::trim` removes.
pub open spec fn is_unicode_whitespace(c: char) -> bool {
    let u = c as u32;
    ||| 0x9 <= u <= 0xD
    ||| u == 0x20
    ||| u == 0x85
    ||| u == 0xA0
    ||| u == 0x1680
    ||| 0x2000 <= u <= 0x200A
    ||| u == 0x2028
    ||| u == 0x2029
    ||| u == 0x202F
    ||| u == 0x205F
    ||| u == 0x3000
}

/// The characters that a trim removes from both ends.
#[derive(Clone, Copy, PartialEq, Eq, Debug)]
pub enum TrimSet {
    Whitespace,
    Slash,
}

pub open spec fn in_trim_set(set: TrimSet, c: char) -> bool {
    match set {
        TrimSet::Whitespace => is_unicode_whitespace(c),
        TrimSet::Slash => c == '/',
    }
}

/// `s` without the leading characters of `set`.
pub open spec fn strip_leading(s: Seq<char>, set: TrimSet) -> Seq<char>
    decreases s.len(),
{
    if s.len() > 0 && in_trim_set(set, s[0]) {
        strip_leading(s.drop_first(), set)
    } else {
        s
    }
}

/// `s` without the trailing characters of `set`.
pub open spec fn strip_trailing(s: Seq<char>, set: TrimSet) -> Seq<char>
    decreases s.len(),
{
    if s.len() > 0 && in_trim_set(set, s.last()) {
        strip_trailing(s.drop_last(), set)
    } else {
        s
    }
}

/// `s` without the characters of `set` at either end.
pub open spec fn trimmed(s: Seq<char>, set: TrimSet) -> Seq<char> {
    strip_trailing(strip_leading(s, set), set)
}

/// `s` without leading and trailing Unicode whitespace, as `str::trim` gives it.
pub open spec fn trim_ws(s: Seq<char>) -> Seq<char> {
    trimmed(s, TrimSet::Whitespace)
}

/// Whether `c` belongs to `set`.
pub fn is_in_trim_set(set: TrimSet, c: char) -> (r: bool)
    ensures
        r == in_trim_set(set, c),
{
    match set {
        TrimSet::Whitespace => {
            let u = c as u32;
            (0x9 <= u && u <= 0xD) || u == 0x20 || u == 0x85 || u == 0xA0 || u == 0x1680 || (
            0x2000 <= u && u <= 0x200A) || u == 0x2028 || u == 0x2029 || u == 0x202F || u
                == 0x205F || u == 0x3000
        },
        TrimSet::Slash => c == '/',
    }
}

/// The bounds `a..b` of what remains of `chars` once `set` is trimmed from both ends.
pub fn trim_bounds(chars: &Vec<char>, set: TrimSet) -> (ab: (usize, usize))
    ensures
        ab.0 <= ab.1 <= chars.len(),
        chars@.subrange(ab.0 as int, ab.1 as int) == trimmed(chars@, set),
{
    let n = chars.len();
    let mut a: usize = 0;
    assert(chars@.subrange(0, n as int) =~= chars@);
    while a < n && is_in_trim_set(set, chars[a])
        invariant
            a <= n == chars.len(),
            strip_leading(chars@, set) == strip_leading(chars@.subrange(a as int, n as int), set),
        decreases n - a,
    {
        assert(chars@.subrange(a as int, n as int).drop_first() =~= chars@.subrange(
            a + 1,
            n as int,
        ));
        a = a + 1;
    }
    assert(strip_leading(chars@.subrange(a as int, n as int), set) == chars@.subrange(
        a as int,
        n as int,
    ));
    let mut b: usize = n;
    while b > a && is_in_trim_set(set, chars[b - 1])
        invariant
            a <= b <= n == chars.len(),
            strip_trailing(chars@.subrange(a as int, n as int), set) == strip_trailing(
                chars@.subrange(a as int, b as int),
                set,
            ),
        decreases b,
    {
        assert(chars@.subrange(a as int, b as int).drop_last() =~= chars@.subrange(
            a as int,
            b - 1,
        ));
        b = b - 1;
    }
    (a, b)
}

/// `s` with the characters of `set` removed from both ends.
pub fn trim_set(s: &str, set: TrimSet) -> (r: String)
    ensures
        r@ == trimmed(s@, set),
{
    let chars = chars_of(s);
    let (a, b) = trim_bounds(&chars, set);
    let mut r = String::new();
    push_chars(&mut r, &chars, a, b);
    assert(Seq::<char>::empty() + chars@.subrange(a as int, b as int) =~= chars@.subrange(
        a as int,
        b as int,
    ));
    r
}

/// Whether `s` is empty or made of whitespace only (`s.trim().is_empty()`).
pub fn is_blank(s: &str) -> (r: bool)
    ensures
        r == (trim_ws(s@).len() == 0),
{
    let chars = chars_of(s);
    let (a, b) = trim_bounds(&chars, TrimSet::Whitespace);
    a == b
}

/// Whether `s` has no whitespace at either end (`s.trim() == s`).
pub fn is_trimmed(s: &str) -> (r: bool)
    ensures
        r == (trim_ws(s@) == s@),
{
    let chars = chars_of(s);
    let (a, b) = trim_bounds(&chars, TrimSet::Whitespace);
    proof {
        if a != 0 || b != chars.len() {
            assert(trim_ws(s@).len() < s@.len());
        }
        if a == 0 && b == chars.len() {
            assert(chars@.subrange(0, chars@.len() as int) =~= chars@);
        }
    }
    a == 0 && b == chars.len()
}

/// Equality of two string slices by their characters.
pub fn str_eq(x: &str, y: &str) -> (r: bool)
    ensures
        r == (x@ == y@),
{
    let a = chars_of(x);
    let b = chars_of(y);
    if a.len() != b.len() {
        assert(x@.len() != y@.len());
        return false;
    }
    let mut i: usize = 0;
    while i < a.len()
        invariant
            a@ == x@,
            b@ == y@,
            a.len() == b.len(),
            i <= a.len(),
            forall|k: int| 0 <= k < i ==> a@[k] == b@[k],
        decreases a.len() - i,
    {
        if a[i] != b[i] {
            assert(x@[i as int] != y@[i as int]);
            return false;
        }
        i = i + 1;
    }
    assert(a@ =~= b@);
    true
}

/// The ASCII digit for `d`.
pub open spec fn digit_char(d: nat) -> char {
    if d == 0 {
        '0'
    } else if d == 1 {
        '1'
    } else if d == 2 {
        '2'
    } else if d == 3 {
        '3'
    } else if d == 4 {
        '4'
    } else if d == 5 {
        '5'
    } else if d == 6 {
        '6'
    } else if d == 7 {
        '7'
    } else if d == 8 {
        '8'
    } else {
        '9'
    }
}

/// The decimal notation of `n`, without sign or leading zeros (as `{}` prints it).
pub open spec fn decimal(n: nat) -> Seq<char>
    decreases n,
{
    if n < 10 {
        seq![digit_char(n)]
    } else {
        decimal(n / 10).push(digit_char(n % 10))
    }
}

/// The decimal notation of `n`, left-padded with zeros to at least `width` characters
/// (as `{:0width$}` prints it).
pub open spec fn zero_padded(n: nat, width: nat) -> Seq<char> {
    let d = decimal(n);
    if d.len() >= width {
        d
    } else {
        Seq::new((width - d.len()) as nat, |i: int| '0') + d
    }
}

pub fn digit_of(d: u64) -> (c: char)
    requires
        d < 10,
    ensures
        c == digit_char(d as nat),
{
    if d == 0 {
        '0'
    } else if d == 1 {
        '1'
    } else if d == 2 {
        '2'
    } else if d == 3 {
        '3'
    } else if d == 4 {
        '4'
    } else if d == 5 {
        '5'
    } else if d == 6 {
        '6'
    } else if d == 7 {
        '7'
    } else if d == 8 {
        '8'
    } else {
        '9'
    }
}

/// Appends the decimal notation of `n`.
pub fn push_decimal(s: &mut String, n: u64)
    ensures
        final(s)@ == old(s)@ + decimal(n as nat),
    decreases n,
{
    if n >= 10 {
        push_decimal(s, n / 10);
    }
    push_char(s, digit_of(n % 10));
    assert(s@ =~= old(s)@ + decimal(n as nat));
}

/// `10^k`.
pub open spec fn pow10(k: nat) -> nat
    decreases k,
{
    if k == 0 {
        1
    } else {
        10 * pow10((k - 1) as nat)
    }
}

/// A number below `10^k` has at most `k` digits.
proof fn lemma_decimal_len_le(n: nat, k: nat)
    requires
        k >= 1,
        n < pow10(k),
    ensures
        decimal(n).len() <= k,
    decreases n,
{
    if n >= 10 {
        assert(k >= 2) by {
            if k == 1 {
                reveal_with_fuel(pow10, 2);
            }
        }
        lemma_decimal_len_le(n / 10, (k - 1) as nat);
    }
}

/// The number of characters in the decimal notation of `n`.
pub fn decimal_len(n: u64) -> (len: usize)
    ensures
        len == decimal(n as nat).len(),
        len <= 20,
    decreases n,
{
    proof {
        reveal_with_fuel(pow10, 21);
        assert(pow10(20) == 100_000_000_000_000_000_000);
        lemma_decimal_len_le(n as nat, 20);
    }
    if n >= 10 {
        let l = decimal_len(n / 10);
        l + 1
    } else {
        1
    }
}

/// Appends `n` in decimal, left-padded with zeros to at least `width` characters.
pub fn push_zero_padded(s: &mut String, n: u64, width: usize)
    ensures
        final(s)@ == old(s)@ + zero_padded(n as nat, width as nat),
{
    let len = decimal_len(n);
    let ghost start = s@;
    if len < width {
        let mut i: usize = len;
        while i < width
            invariant
                len <= i <= width,
                s@ == start + Seq::new((i - len) as nat, |k: int| '0'),
            decreases width - i,
        {
            push_char(s, '0');
            i = i + 1;
            assert(s@ =~= start + Seq::new((i - len) as nat, |k: int| '0'));
        }
    }
    let ghost mid = s@;
    push_decimal(s, n);
    assert(s@ =~= old(s)@ + zero_padded(n as nat, width as nat));
}

} // verus!

verus! {

/// Lexicographic order on character sequences, comparing characters by code point
/// (the order of `str`'s `Ord`, since UTF-8 preserves code-point order).
pub open spec fn chars_lt(a: Seq<char>, b: Seq<char>) -> bool
    decreases a.len(),
{
    if a.len() == 0 {
        b.len() > 0
    } else if b.len() == 0 {
        false
    } else if a[0] != b[0] {
        (a[0] as int) < (b[0] as int)
    } else {
        chars_lt(a.drop_first(), b.drop_first())
    }
}

pub proof fn lemma_chars_lt_irreflexive(a: Seq<char>)
    ensures
        !chars_lt(a, a),
    decreases a.len(),
{
    if a.len() > 0 {
        lemma_chars_lt_irreflexive(a.drop_first());
    }
}

pub proof fn lemma_chars_lt_asymmetric(a: Seq<char>, b: Seq<char>)
    ensures
        !(chars_lt(a, b) && chars_lt(b, a)),
    decreases a.len(),
{
    if a.len() > 0 && b.len() > 0 && a[0] == b[0] {
        lemma_chars_lt_asymmetric(a.drop_first(), b.drop_first());
    }
}

pub proof fn lemma_chars_lt_total(a: Seq<char>, b: Seq<char>)
    ensures
        chars_lt(a, b) || a == b || chars_lt(b, a),
    decreases a.len(),
{
    if a.len() > 0 && b.len() > 0 && a[0] == b[0] {
        lemma_chars_lt_total(a.drop_first(), b.drop_first());
        if a.drop_first() == b.drop_first() {
            assert(a =~= seq![a[0]] + a.drop_first());
            assert(b =~= seq![b[0]] + b.drop_first());
        }
    } else if a.len() > 0 && b.len() > 0 {
        assert((a[0] as int) != (b[0] as int));
    } else if a.len() == 0 && b.len() == 0 {
        assert(a =~= b);
    }
}

pub proof fn lemma_chars_lt_transitive(a: Seq<char>, b: Seq<char>, c: Seq<char>)
    requires
        chars_lt(a, b),
        chars_lt(b, c),
    ensures
        chars_lt(a, c),
    decreases a.len(),
{
    if a.len() > 0 && b.len() > 0 && c.len() > 0 && a[0] == b[0] && b[0] == c[0] {
        lemma_chars_lt_transitive(a.drop_first(), b.drop_first(), c.drop_first());
    }
}

/// Three-way comparison of two character sequences: negative, zero or positive as
/// `a` sorts before, equal to, or after `b`.
pub fn compare_chars(a: &Vec<char>, b: &Vec<char>) -> (r: i8)
    ensures
        r < 0 <==> chars_lt(a@, b@),
        r == 0 <==> a@ == b@,
        r > 0 <==> chars_lt(b@, a@),
{
    let mut i: usize = 0;
    assert(a@.skip(0) =~= a@);
    assert(b@.skip(0) =~= b@);
    while i < a.len() && i < b.len()
        invariant
            i <= a.len(),
            i <= b.len(),
            forall|k: int| 0 <= k < i ==> a@[k] == b@[k],
            chars_lt(a@, b@) == chars_lt(a@.skip(i as int), b@.skip(i as int)),
            chars_lt(b@, a@) == chars_lt(b@.skip(i as int), a@.skip(i as int)),
        decreases a.len() - i,
    {
        if a[i] != b[i] {
            proof {
                lemma_chars_lt_asymmetric(a@, b@);
                assert(a@ != b@) by {
                    assert(a@[i as int] != b@[i as int]);
                }
            }
            if a[i] < b[i] {
                return -1;
            } else {
                return 1;
            }
        }
        assert(a@.skip(i as int).drop_first() =~= a@.skip(i + 1));
        assert(b@.skip(i as int).drop_first() =~= b@.skip(i + 1));
        i = i + 1;
    }
    proof {
        lemma_chars_lt_asymmetric(a@, b@);
        if a.len() == b.len() {
            assert(a@ =~= b@);
            lemma_chars_lt_irreflexive(a@);
        } else {
            assert(a@ != b@);
        }
    }
    if a.len() < b.len() {
        -1
    } else if a.len() == b.len() {
        0
    } else {
        1
    }
}

} // verus!
