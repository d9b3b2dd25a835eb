//! Text helpers: decimal numerals, literal comparison, prefix and suffix
//! stripping, integer parsing and slash-separated paths.

use vstd::prelude::*;
use vstd::string::*;

verus! {

/// `String::push` appends one character to the end of the string.
pub assume_specification[ String::push ](s: &mut String, c: char)
    ensures
        final(s)@ == old(s)@.push(c),
;

/// The character of a decimal digit.
pub open spec fn digit_char(d: int) -> char {
    (48 + d) as char
}

pub open spec fn is_digit(c: char) -> bool {
    '0' <= c && c <= '9'
}

pub open spec fn all_digits(s: Seq<char>) -> bool {
    forall|i: int| 0 <= i < s.len() ==> is_digit(#[trigger] s[i])
}

/// The number that a string of digits denotes.
pub open spec fn dec_value(s: Seq<char>) -> nat
    decreases s.len(),
{
    if s.len() == 0 {
        0
    } else {
        dec_value(s.drop_last()) * 10 + (if is_digit(s.last()) {
            (s.last() as int - 48) as nat
        } else {
            0
        })
    }
}

/// The shortest decimal numeral of a natural number.
pub open spec fn dec_text(n: nat) -> Seq<char>
    decreases n,
{
    if n < 10 {
        seq![digit_char(n as int)]
    } else {
        dec_text(n / 10).push(digit_char((n % 10) as int))
    }
}

/// The decimal numeral of an integer, with a leading minus sign when negative.
pub open spec fn int_text(n: int) -> Seq<char> {
    if n < 0 {
        seq!['-'] + dec_text((-n) as nat)
    } else {
        dec_text(n as nat)
    }
}

/// A run of zeros.
pub open spec fn zeros(n: nat) -> Seq<char> {
    Seq::new(n, |i: int| '0')
}

/// `s` with zeros in front until it is at least `width` characters long.
pub open spec fn zero_pad(s: Seq<char>, width: nat) -> Seq<char> {
    if s.len() >= width {
        s
    } else {
        zeros((width - s.len()) as nat) + s
    }
}

/// What reading `s` as an unsigned decimal number of at most `limit` gives:
/// an optional plus sign, then at least one digit.
pub open spec fn parse_unsigned(s: Seq<char>, limit: nat) -> Option<nat> {
    let body = if s.len() > 1 && s[0] == '+' {
        s.skip(1)
    } else {
        s
    };
    if body.len() > 0 && all_digits(body) && dec_value(body) <= limit {
        Some(dec_value(body))
    } else {
        None
    }
}

/// What reading `s` as a signed 64-bit decimal number gives: an optional sign,
/// then at least one digit.
pub open spec fn parse_signed(s: Seq<char>) -> Option<int> {
    if s.len() > 1 && s[0] == '-' {
        let body = s.skip(1);
        if all_digits(body) && dec_value(body) <= 0x8000_0000_0000_0000 {
            Some(-(dec_value(body) as int))
        } else {
            None
        }
    } else {
        match parse_unsigned(s, 0x7fff_ffff_ffff_ffff) {
            Some(n) => Some(n as int),
            None => None,
        }
    }
}

/// The position of the first `c` in `s`, or the length of `s` without one.
pub open spec fn first_index(s: Seq<char>, c: char) -> nat
    decreases s.len(),
{
    if s.len() == 0 {
        0
    } else if s[0] == c {
        0
    } else {
        1 + first_index(s.skip(1), c)
    }
}

/// `whole` begins with `start`.
pub open spec fn starts_with(whole: Seq<char>, start: Seq<char>) -> bool {
    start.len() <= whole.len() && whole.take(start.len() as int) == start
}

/// `whole` ends with `end`.
pub open spec fn ends_with(whole: Seq<char>, end: Seq<char>) -> bool {
    end.len() <= whole.len() && whole.skip(whole.len() - end.len()) == end
}

/// The path of `part` seen from `base`: an absolute part stands alone, any
/// other follows the base behind one separator.
pub open spec fn joined(base: Seq<char>, part: Seq<char>) -> Seq<char> {
    if part.len() > 0 && part[0] == '/' {
        part
    } else if base.len() == 0 || base.last() == '/' {
        base + part
    } else {
        base.push('/') + part
    }
}

/// Unicode's `White_Space` property.
pub open spec fn is_space(c: char) -> bool {
    let n = c as int;
    ||| 9 <= n <= 13
    ||| n == 0x20
    ||| n == 0x85
    ||| n == 0xa0
    ||| n == 0x1680
    ||| 0x2000 <= n <= 0x200a
    ||| n == 0x2028
    ||| n == 0x2029
    ||| n == 0x202f
    ||| n == 0x205f
    ||| n == 0x3000
}

/// `s` without the white space at its front.
pub open spec fn trimmed_start(s: Seq<char>) -> Seq<char>
    decreases s.len(),
{
    if s.len() > 0 && is_space(s[0]) {
        trimmed_start(s.skip(1))
    } else {
        s
    }
}

/// `s` without the white space at its back.
pub open spec fn trimmed_end(s: Seq<char>) -> Seq<char>
    decreases s.len(),
{
    if s.len() > 0 && is_space(s.last()) {
        trimmed_end(s.drop_last())
    } else {
        s
    }
}

/// `parts` with `sep` between each two.
pub open spec fn joined_by(parts: Seq<Seq<char>>, sep: Seq<char>) -> Seq<char>
    decreases parts.len(),
{
    if parts.len() == 0 {
        seq![]
    } else if parts.len() == 1 {
        parts[0]
    } else {
        joined_by(parts.drop_last(), sep) + sep + parts.last()
    }
}

/// The contents of a vector of strings.
pub open spec fn texts(v: Seq<String>) -> Seq<Seq<char>> {
    v.map_values(|s: String| s@)
}

/// A decimal numeral is made of digits, and denotes its number.
pub proof fn lemma_dec_text(n: nat)
    ensures
        dec_text(n).len() > 0,
        all_digits(dec_text(n)),
        dec_value(dec_text(n)) == n,
    decreases n,
{
    let t = dec_text(n);
    if n < 10 {
        assert(t.drop_last() =~= seq![]);
        assert(dec_value(t.drop_last()) == 0);
    } else {
        lemma_dec_text(n / 10);
        assert(t.drop_last() =~= dec_text(n / 10));
    }
}

/// Zeros in front do not change what a numeral denotes.
pub proof fn lemma_dec_value_zeros(k: nat, s: Seq<char>)
    requires
        all_digits(s),
    ensures
        all_digits(zeros(k) + s),
        dec_value(zeros(k) + s) == dec_value(s),
    decreases s.len(), k,
{
    let t = zeros(k) + s;
    if s.len() == 0 {
        assert(t =~= zeros(k));
        if k > 0 {
            lemma_dec_value_zeros((k - 1) as nat, s);
            assert(t.drop_last() =~= zeros((k - 1) as nat) + s);
        }
    } else {
        lemma_dec_value_zeros(k, s.drop_last());
        assert(t.drop_last() =~= zeros(k) + s.drop_last());
    }
}

/// Reading back an unsigned numeral, with or without zeros in front.
pub proof fn lemma_parse_unsigned_text(n: nat, width: nat, limit: nat)
    requires
        n <= limit,
    ensures
        all_digits(zero_pad(dec_text(n), width)),
        zero_pad(dec_text(n), width).len() > 0,
        parse_unsigned(zero_pad(dec_text(n), width), limit) == Some(n),
{
    lemma_dec_text(n);
    let t = dec_text(n);
    if t.len() < width {
        lemma_dec_value_zeros((width - t.len()) as nat, t);
    }
    let p = zero_pad(t, width);
    assert(is_digit(p[0]));
}

/// Reading back a signed numeral.
pub proof fn lemma_parse_signed_text(n: int)
    requires
        i64::MIN <= n <= i64::MAX,
    ensures
        parse_signed(int_text(n)) == Some(n),
        int_text(n).len() > 0,
{
    if n < 0 {
        lemma_dec_text((-n) as nat);
        assert(int_text(n).skip(1) =~= dec_text((-n) as nat));
    } else {
        lemma_dec_text(n as nat);
        assert(is_digit(int_text(n)[0]));
    }
}

/// The first occurrence lies behind a part without one.
pub proof fn lemma_first_index_behind(a: Seq<char>, c: char, b: Seq<char>)
    requires
        forall|i: int| 0 <= i < a.len() ==> a[i] != c,
    ensures
        first_index(a + seq![c] + b, c) == a.len(),
    decreases a.len(),
{
    let s = a + seq![c] + b;
    if a.len() > 0 {
        lemma_first_index_behind(a.skip(1), c, b);
        assert(s.skip(1) =~= a.skip(1) + seq![c] + b);
        assert(s[0] == a[0]);
    }
}

/// The characters of a string, in order.
pub fn chars_of(s: &str) -> (v: Vec<char>)
    ensures
        v@ == s@,
{
    let mut v: Vec<char> = Vec::new();
    for c in it: s.chars()
        invariant
            v@ == it.seq().take(it.index() as int),
            it.seq() == s@,
    {
        v.push(c);
        assert(it.seq().take(it.index() as int + 1) =~= it.seq().take(it.index() as int).push(
            it.seq()[it.index() as int],
        ));
    }
    v
}

/// The string of the characters `v[from..to]`.
pub fn string_of(v: &Vec<char>, from: usize, to: usize) -> (s: String)
    requires
        from <= to <= v@.len(),
    ensures
        s@ == v@.subrange(from as int, to as int),
{
    let mut s = String::new();
    let mut i: usize = from;
    while i < to
        invariant
            from <= i <= to <= v@.len(),
            s@ == v@.subrange(from as int, i as int),
        decreases to - i,
    {
        s.push(v[i]);
        i = i + 1;
        assert(v@.subrange(from as int, i as int) =~= v@.subrange(from as int, i - 1).push(
            v@[i - 1],
        ));
    }
    s
}

/// Whether two strings hold the same characters.
pub fn same_text(a: &str, b: &str) -> (same: bool)
    ensures
        same == (a@ == b@),
{
    let x = chars_of(a);
    let y = chars_of(b);
    if x.len() != y.len() {
        return false;
    }
    let mut i: usize = 0;
    while i < x.len()
        invariant
            0 <= i <= x.len(),
            x@ == a@,
            y@ == b@,
            x.len() == y.len(),
            forall|j: int| 0 <= j < i ==> x@[j] == y@[j],
        decreases x.len() - i,
    {
        if x[i] != y[i] {
            return false;
        }
        i = i + 1;
    }
    assert(a@ =~= b@);
    true
}

/// A copy of a string slice.
pub fn owned(s: &str) -> (r: String)
    ensures
        r@ == s@,
{
    String::from_str(s)
}

/// Append the decimal numeral of `n`.
pub fn push_dec(out: &mut String, n: u64)
    ensures
        final(out)@ == old(out)@ + dec_text(n as nat),
    decreases n,
{
    if n >= 10 {
        push_dec(out, n / 10);
    }
    let d: u8 = (n % 10) as u8;
    out.push((48u8 + d) as char);
    assert(out@ =~= old(out)@ + dec_text(n as nat));
}

/// Append the decimal numeral of `n`.
pub fn push_int(out: &mut String, n: i64)
    ensures
        final(out)@ == old(out)@ + int_text(n as int),
{
    if n < 0 {
        out.push('-');
        let m: u64 = if n == i64::MIN {
            0x8000_0000_0000_0000
        } else {
            (-n) as u64
        };
        push_dec(out, m);
        assert(out@ =~= old(out)@ + int_text(n as int));
    } else {
        push_dec(out, n as u64);
    }
}

/// The decimal numeral of `n`.
pub fn dec_string(n: u64) -> (s: String)
    ensures
        s@ == dec_text(n as nat),
{
    let mut s = String::new();
    push_dec(&mut s, n);
    assert(s@ =~= dec_text(n as nat));
    s
}

/// Append the decimal numeral of `n` with zeros in front up to `width`.
pub fn push_padded(out: &mut String, n: u64, width: usize)
    ensures
        final(out)@ == old(out)@ + zero_pad(dec_text(n as nat), width as nat),
{
    let digits = dec_string(n);
    let count: usize = digits.as_str().unicode_len();
    let mut i: usize = count;
    while i < width
        invariant
            count <= i,
            count <= width ==> i <= width,
            count == digits@.len(),
            digits@ == dec_text(n as nat),
            count <= width ==> out@ == old(out)@ + zeros((i - count) as nat),
            count > width ==> out@ == old(out)@,
        decreases width - i,
    {
        out.push('0');
        i = i + 1;
        assert(zeros((i - count) as nat) =~= zeros((i - 1 - count) as nat).push('0'));
        assert(out@ =~= old(out)@ + zeros((i - count) as nat));
    }
    out.append(digits.as_str());
    assert(out@ =~= old(out)@ + zero_pad(dec_text(n as nat), width as nat));
}

/// The value of the digits `v[from..to]`, if there are some, they are all
/// digits, and the value is at most `limit`.
fn read_digits(v: &Vec<char>, from: usize, to: usize, limit: u64) -> (r: Option<u64>)
    requires
        from <= to <= v@.len(),
    ensures
        r is Some <==> ({
            let body = v@.subrange(from as int, to as int);
            body.len() > 0 && all_digits(body) && dec_value(body) <= limit
        }),
        r is Some ==> r->0 == dec_value(v@.subrange(from as int, to as int)),
{
    if from == to {
        return None;
    }
    let ghost body = v@.subrange(from as int, to as int);
    let mut acc: u64 = 0;
    let mut over = false;
    let mut i: usize = from;
    while i < to
        invariant
            from <= i <= to <= v@.len(),
            body == v@.subrange(from as int, to as int),
            forall|j: int| 0 <= j < i - from ==> is_digit(#[trigger] body[j]),
            !over ==> acc == dec_value(body.take(i - from)) && acc <= limit,
            over ==> dec_value(body.take(i - from)) > limit,
        decreases to - i,
    {
        let c = v[i];
        if c < '0' || c > '9' {
            assert(!is_digit(body[i - from]));
            return None;
        }
        let d: u64 = (c as u32 - 48) as u64;
        proof {
            assert(body.take(i + 1 - from).drop_last() =~= body.take(i - from));
            assert(body.take(i + 1 - from).last() == c);
        }
        if !over {
            if acc > (limit / 10) || acc * 10 > limit || d > limit - acc * 10 {
                over = true;
            } else {
                acc = acc * 10 + d;
            }
        }
        i = i + 1;
    }
    assert(body.take(to - from) =~= body);
    if over {
        None
    } else {
        Some(acc)
    }
}

/// Read `v[from..to]` as an unsigned number of at most `limit`.
pub fn read_unsigned(v: &Vec<char>, from: usize, to: usize, limit: u64) -> (r: Option<u64>)
    requires
        from <= to <= v@.len(),
    ensures
        match parse_unsigned(v@.subrange(from as int, to as int), limit as nat) {
            Some(n) => r is Some && r->0 == n,
            None => r is None,
        },
{
    let ghost s = v@.subrange(from as int, to as int);
    if to - from > 1 && v[from] == '+' {
        assert(s.skip(1) =~= v@.subrange(from + 1, to as int));
        read_digits(v, from + 1, to, limit)
    } else {
        read_digits(v, from, to, limit)
    }
}

/// Read `v[from..to]` as a signed 64-bit number.
pub fn read_signed(v: &Vec<char>, from: usize, to: usize) -> (r: Option<i64>)
    requires
        from <= to <= v@.len(),
    ensures
        match parse_signed(v@.subrange(from as int, to as int)) {
            Some(n) => r is Some && r->0 == n,
            None => r is None,
        },
{
    let ghost s = v@.subrange(from as int, to as int);
    if to - from > 1 && v[from] == '-' {
        assert(s.skip(1) =~= v@.subrange(from + 1, to as int));
        match read_digits(v, from + 1, to, 0x8000_0000_0000_0000) {
            Some(n) => if n == 0x8000_0000_0000_0000 {
                Some(i64::MIN)
            } else {
                Some(-(n as i64))
            },
            None => None,
        }
    } else {
        match read_unsigned(v, from, to, 0x7fff_ffff_ffff_ffff) {
            Some(n) => Some(n as i64),
            None => None,
        }
    }
}

/// The position of the first `c` in `v[from..to]`, counted in `v`, or `to`.
pub fn find_char(v: &Vec<char>, from: usize, to: usize, c: char) -> (i: usize)
    requires
        from <= to <= v@.len(),
    ensures
        from <= i <= to,
        i - from == first_index(v@.subrange(from as int, to as int), c),
    decreases to - from,
{
    let ghost s = v@.subrange(from as int, to as int);
    if from == to || v[from] == c {
        from
    } else {
        assert(s.skip(1) =~= v@.subrange(from + 1, to as int));
        find_char(v, from + 1, to, c)
    }
}

/// The path of `part` seen from `base`.
pub fn path_join(base: &str, part: &str) -> (p: String)
    ensures
        p@ == joined(base@, part@),
{
    let b = chars_of(base);
    let q = chars_of(part);
    if q.len() > 0 && q[0] == '/' {
        return owned(part);
    }
    let mut p = owned(base);
    if b.len() > 0 && b[b.len() - 1] != '/' {
        p.push('/');
    }
    p.append(part);
    p
}

fn space(c: char) -> (b: bool)
    ensures
        b == is_space(c),
{
    let n: u32 = c as u32;
    (9 <= n && n <= 13) || n == 0x20 || n == 0x85 || n == 0xa0 || n == 0x1680 || (0x2000 <= n && n
        <= 0x200a) || n == 0x2028 || n == 0x2029 || n == 0x202f || n == 0x205f || n == 0x3000
}

/// `s` without the white space at both ends.
pub fn trim(s: &str) -> (t: String)
    ensures
        t@ == trimmed_end(trimmed_start(s@)),
{
    let v = chars_of(s);
    let mut from: usize = 0;
    assert(v@.skip(0) =~= v@);
    while from < v.len() && space(v[from])
        invariant
            0 <= from <= v@.len(),
            trimmed_start(v@) == trimmed_start(v@.skip(from as int)),
        decreases v@.len() - from,
    {
        assert(v@.skip(from as int).skip(1) =~= v@.skip(from + 1));
        from = from + 1;
    }
    let ghost front = v@.skip(from as int);
    assert(trimmed_start(v@) == front);
    let mut to: usize = v.len();
    assert(v@.subrange(from as int, to as int) =~= front);
    while to > from && space(v[to - 1])
        invariant
            from <= to <= v@.len(),
            trimmed_end(front) == trimmed_end(v@.subrange(from as int, to as int)),
        decreases to,
    {
        assert(v@.subrange(from as int, to as int).drop_last() =~= v@.subrange(
            from as int,
            to - 1,
        ));
        to = to - 1;
    }
    string_of(&v, from, to)
}

/// `parts` with `sep` between each two.
pub fn join_by(parts: &Vec<String>, sep: &str) -> (s: String)
    ensures
        s@ == joined_by(texts(parts@), sep@),
{
    let mut s = String::new();
    let ghost all = texts(parts@);
    let mut i: usize = 0;
    assert(all.take(0) =~= seq![]);
    while i < parts.len()
        invariant
            0 <= i <= parts.len(),
            all == texts(parts@),
            s@ == joined_by(all.take(i as int), sep@),
        decreases parts.len() - i,
    {
        if i > 0 {
            s.append(sep);
        }
        s.append(parts[i].as_str());
        i = i + 1;
        proof {
            let t = all.take(i as int);
            assert(t.drop_last() =~= all.take(i - 1));
            assert(t.last() == parts@[i - 1]@);
            if i == 1 {
                assert(s@ =~= t[0]);
            }
        }
    }
    assert(all.take(parts.len() as int) =~= all);
    s
}

} // verus!
