//! What texts, instants, pseudonyms and listings are, in plain words.

use crate::collect::enumerates;
use crate::config::Config;
use crate::ident::{uuid_error, uuid_of_text, uuid_parsed, uuid_text};
use crate::plain::nanos;
use crate::storage::bundle::{ascii_bytes, hex_digit, hex_text, pseudonym, sha256_digest};
use crate::text::{
    dec_text, first_index, int_text, is_digit, is_space, joined, joined_by, lemma_dec_text,
    lemma_parse_signed_text, lemma_parse_unsigned_text, parse_signed, parse_unsigned, trimmed_end,
    trimmed_start, zero_pad,
};
use crate::time::{at_millis, lemma_at_millis, millis_in_range, quotient_toward_zero, Timestamp};
use crate::version::{base_version, cleaned, GitAnswers};
use vstd::arithmetic::power::pow;
use vstd::prelude::*;
use vstd::string::*;

verus! {

/// A numeral: the last digit is the remainder by ten, what stands before it the
/// numeral of the quotient, and no numeral but that of zero begins with a zero.
pub proof fn law_numerals(n: nat)
    ensures
        dec_text(n).len() > 0,
        dec_text(n).last() as int == 48 + n % 10,
        n < 10 ==> dec_text(n).len() == 1,
        n >= 10 ==> dec_text(n).drop_last() == dec_text(n / 10),
        n > 0 ==> dec_text(n)[0] != '0',
        int_text(n as int) == dec_text(n),
        n > 0 ==> int_text(-(n as int)) == seq!['-'] + dec_text(n),
    decreases n,
{
    lemma_dec_text(n);
    if n >= 10 {
        law_numerals(n / 10);
        assert(dec_text(n).drop_last() =~= dec_text(n / 10));
        assert(dec_text(n)[0] == dec_text(n / 10)[0]);
    }
}

/// Padding puts zeros in front up to the width and changes nothing else.
pub proof fn law_padding(s: Seq<char>, width: nat)
    ensures
        zero_pad(s, width).len() == (if s.len() < width {
            width
        } else {
            s.len()
        }),
        zero_pad(s, width).skip(zero_pad(s, width).len() - s.len()) == s,
        forall|i: int|
            0 <= i < zero_pad(s, width).len() - s.len() ==> #[trigger] zero_pad(s, width)[i] == '0',
{
    assert(zero_pad(s, width).skip(zero_pad(s, width).len() - s.len()) =~= s);
}

/// A relative path follows its base behind one slash; an absolute one stands alone.
pub proof fn law_paths(base: Seq<char>, part: Seq<char>)
    ensures
        part.len() > 0 && part[0] == '/' ==> joined(base, part) == part,
        part.len() > 0 && part[0] != '/' && base.len() > 0 && base.last() != '/' ==> joined(
            base,
            part,
        ) == base + seq!['/'] + part,
        part.len() > 0 && part[0] != '/' && base.len() > 0 && base.last() == '/' ==> joined(
            base,
            part,
        ) == base + part,
{
    if part.len() > 0 && part[0] != '/' && base.len() > 0 && base.last() != '/' {
        assert(joined(base, part) =~= base + seq!['/'] + part);
    }
}

/// Trimming takes away white space at the ends, all of it, and nothing else.
pub proof fn law_trim_start(s: Seq<char>)
    ensures
        trimmed_start(s).len() <= s.len(),
        s.skip(s.len() - trimmed_start(s).len()) == trimmed_start(s),
        forall|i: int|
            0 <= i < s.len() - trimmed_start(s).len() ==> is_space(#[trigger] s[i]),
        trimmed_start(s).len() > 0 ==> !is_space(trimmed_start(s)[0]),
    decreases s.len(),
{
    if s.len() > 0 && is_space(s[0]) {
        let rest = s.skip(1);
        law_trim_start(rest);
        assert(s.skip(s.len() - trimmed_start(s).len()) =~= rest.skip(
            rest.len() - trimmed_start(rest).len(),
        ));
        assert forall|i: int| 0 <= i < s.len() - trimmed_start(s).len() implies is_space(
            #[trigger] s[i],
        ) by {
            if i > 0 {
                assert(s[i] == rest[i - 1]);
            }
        }
    } else {
        assert(s.skip(0) =~= s);
    }
}

/// Trimming takes away white space at the ends, all of it, and nothing else.
pub proof fn law_trim_end(s: Seq<char>)
    ensures
        trimmed_end(s).len() <= s.len(),
        s.take(trimmed_end(s).len() as int) == trimmed_end(s),
        forall|i: int| trimmed_end(s).len() <= i < s.len() ==> is_space(#[trigger] s[i]),
        trimmed_end(s).len() > 0 ==> !is_space(trimmed_end(s).last()),
    decreases s.len(),
{
    if s.len() > 0 && is_space(s.last()) {
        let front = s.drop_last();
        law_trim_end(front);
        assert(s.take(trimmed_end(s).len() as int) =~= front.take(trimmed_end(front).len() as int));
        assert forall|i: int| trimmed_end(s).len() <= i < s.len() implies is_space(#[trigger] s[i]) by {
            if i < front.len() {
                assert(s[i] == front[i]);
            }
        }
    } else {
        assert(s.take(s.len() as int) =~= s);
    }
}

/// Blanks, tabs and line ends are white space; no visible ASCII character is.
pub proof fn law_space(c: char)
    ensures
        c == ' ' || c == '\t' || c == '\n' || c == '\r' ==> is_space(c),
        33 <= c as int <= 126 ==> !is_space(c),
{
}

/// Parts are joined in order, with the separator between each two.
pub proof fn law_joined_by(parts: Seq<Seq<char>>, part: Seq<char>, sep: Seq<char>)
    ensures
        joined_by(Seq::empty(), sep) == Seq::<char>::empty(),
        joined_by(seq![part], sep) == part,
        parts.len() > 0 ==> joined_by(parts.push(part), sep) == joined_by(parts, sep) + sep + part,
{
    assert(parts.push(part).drop_last() =~= parts);
}

/// The first position of a character is the first: none stands before it.
pub proof fn law_first_index(s: Seq<char>, c: char)
    ensures
        first_index(s, c) <= s.len(),
        first_index(s, c) < s.len() ==> s[first_index(s, c) as int] == c,
        forall|i: int| 0 <= i < first_index(s, c) ==> #[trigger] s[i] != c,
    decreases s.len(),
{
    if s.len() > 0 && s[0] != c {
        let rest = s.skip(1);
        law_first_index(rest, c);
        assert forall|i: int| 0 <= i < first_index(s, c) implies #[trigger] s[i] != c by {
            if i > 0 {
                assert(s[i] == rest[i - 1]);
            }
        }
    }
}

/// A quotient is rounded toward zero.
pub proof fn law_quotient(a: int, b: int)
    requires
        b > 0,
    ensures
        a >= 0 ==> quotient_toward_zero(a, b) * b <= a < quotient_toward_zero(a, b) * b + b,
        a <= 0 ==> quotient_toward_zero(a, b) * b - b < a <= quotient_toward_zero(a, b) * b,
{
    let m = if a < 0 {
        -a
    } else {
        a
    };
    vstd::arithmetic::div_mod::lemma_fundamental_div_mod(m, b);
    vstd::arithmetic::div_mod::lemma_mod_bound(m, b);
    assert(b * (m / b) == (m / b) * b) by (nonlinear_arith);
    assert((-(m / b)) * b == -((m / b) * b)) by (nonlinear_arith);
}

/// The instant of a millisecond is that many after the epoch; the milliseconds of
/// an instant are rounded down.
pub proof fn law_instants(ms: int, t: Timestamp)
    requires
        millis_in_range(ms),
    ensures
        nanos(at_millis(ms)) == 1_000_000 * ms,
        1_000_000 * t.as_millis() <= nanos(t) < 1_000_000 * (t.as_millis() + 1),
{
    lemma_at_millis(ms);
}

/// The value of a hexadecimal digit.
pub open spec fn hex_value(c: char) -> int {
    if '0' <= c && c <= '9' {
        c as int - '0' as int
    } else {
        c as int - 'a' as int + 10
    }
}

/// Hexadecimal text gives each byte in two digits, the high one first.
pub proof fn law_hex(bytes: Seq<u8>, i: int)
    requires
        0 <= i < bytes.len(),
    ensures
        hex_text(bytes).len() == 2 * bytes.len(),
        16 * hex_value(hex_text(bytes)[2 * i]) + hex_value(hex_text(bytes)[2 * i + 1]) == bytes[i],
{
    assert((2 * i) / 2 == i && (2 * i + 1) / 2 == i);
    lemma_hex_digit(bytes[i] as int / 16);
    lemma_hex_digit(bytes[i] as int % 16);
}

proof fn lemma_hex_digit(d: int)
    requires
        0 <= d < 16,
    ensures
        hex_value(hex_digit(d)) == d,
{
}

/// A pseudonym gives the first eight bytes of the digest of the user id's numeral.
pub proof fn law_pseudonym(user: u64, i: int)
    requires
        0 <= i < 8,
        sha256_digest(ascii_bytes(dec_text(user as nat))).len() >= 8,
    ensures
        pseudonym(user).len() == 16,
        16 * hex_value(pseudonym(user)[2 * i]) + hex_value(pseudonym(user)[2 * i + 1])
            == sha256_digest(ascii_bytes(dec_text(user as nat)))[i],
        forall|j: int|
            0 <= j < dec_text(user as nat).len() ==> #[trigger] ascii_bytes(
                dec_text(user as nat),
            )[j] == dec_text(user as nat)[j] as int,
{
    let text = dec_text(user as nat);
    let head = sha256_digest(ascii_bytes(text)).take(8);
    law_hex(head, i);
    lemma_dec_text(user as nat);
}

/// The text of a UUID has 36 characters: 32 hexadecimal digits, the highest first,
/// and hyphens after the eighth, twelfth, sixteenth and twentieth.
pub proof fn law_uuid_text(id: u128, k: int)
    requires
        0 <= k < 32,
    ensures
        uuid_text(id).len() == 36,
        uuid_text(id)[8] == '-',
        uuid_text(id)[13] == '-',
        uuid_text(id)[18] == '-',
        uuid_text(id)[23] == '-',
        ({
            let at = if k < 8 {
                k
            } else if k < 12 {
                k + 1
            } else if k < 16 {
                k + 2
            } else if k < 20 {
                k + 3
            } else {
                k + 4
            };
            hex_value(uuid_text(id)[at]) == (id as int / pow(16, (31 - k) as nat)) % 16
        }),
{
    lemma_hex_digit((id as int / pow(16, (31 - k) as nat)) % 16);
}

/// Audio is cached in the directory that is set, and without one in the bot's own
/// place under the temporary directory.
pub proof fn law_buffer_dir(c: Config, temp_dir: Seq<char>)
    ensures
        (forall|i: int|
            0 <= i < c.local_buffer_dir_raw@.len() ==> is_space(
                #[trigger] c.local_buffer_dir_raw@[i],
            )) ==> c.buffer_dir(temp_dir) == joined(temp_dir, "chronicle-bot"@),
        c.local_buffer_dir_raw@.len() > 0 && !is_space(c.local_buffer_dir_raw@[0]) && !is_space(
            c.local_buffer_dir_raw@.last(),
        ) ==> c.buffer_dir(temp_dir) == c.local_buffer_dir_raw@,
{
    let raw = c.local_buffer_dir_raw@;
    law_trim_start(raw);
    if forall|i: int| 0 <= i < raw.len() ==> is_space(#[trigger] raw[i]) {
        let start = trimmed_start(raw);
        if start.len() > 0 {
            assert(start[0] == raw[raw.len() - start.len()]);
        }
        assert(start.len() == 0);
        law_trim_end(start);
    }
}

/// A build on a tag bears the tag; any other the branch and the commit.
pub proof fn law_version(a: GitAnswers)
    ensures
        a.tag is Some ==> base_version(a) == trimmed_end(trimmed_start(a.tag->0@)),
        a.tag is None && a.branch is Some && a.hash is Some ==> base_version(a) == trimmed_end(
            trimmed_start(a.branch->0@),
        ).push('-') + trimmed_end(trimmed_start(a.hash->0@)),
        a.tag is None && a.branch is None && a.hash is None ==> base_version(a) == "unknown-000000"@,
{
    reveal_strlit("-");
    reveal_strlit("unknown");
    reveal_strlit("000000");
    reveal_strlit("unknown-000000");
    if a.tag is None {
        assert(base_version(a) =~= cleaned(a.branch, "unknown"@).push('-') + cleaned(
            a.hash,
            "000000"@,
        ));
        if a.branch is None && a.hash is None {
            assert(base_version(a) =~= "unknown-000000"@);
        }
    }
}

/// A listing of a set holds each element once and nothing else.
pub proof fn law_listing<A>(order: Seq<A>, s: Set<A>)
    requires
        enumerates(order, s),
    ensures
        forall|i: int, j: int| 0 <= i < j < order.len() ==> order[i] != order[j],
        forall|x: A| #[trigger] s.contains(x) <==> order.contains(x),
        order.len() == s.len(),
{
    order.unique_seq_to_set();
    assert forall|x: A| #[trigger] s.contains(x) <==> order.contains(x) by {
        assert(order.to_set().contains(x) <==> order.contains(x));
    }
}

/// A numeral is read as its number, with zeros in front or without, as far as the
/// limit allows; text without a digit, or with anything but digits behind a plus
/// sign, is no number.
pub proof fn law_reading(s: Seq<char>, n: nat, width: nat, limit: nat)
    ensures
        n <= limit ==> parse_unsigned(zero_pad(dec_text(n), width), limit) == Some(n),
        n > limit ==> parse_unsigned(dec_text(n), limit) is None,
        parse_unsigned(s, limit) is Some ==> s.len() > 0 && parse_unsigned(s, limit)->0 <= limit
            && forall|i: int|
            0 < i < s.len() ==> '0' <= #[trigger] s[i] && s[i] <= '9',
        parse_unsigned(s, limit) is Some ==> ('0' <= s[0] && s[0] <= '9') || s[0] == '+',
        i64::MIN <= n <= i64::MAX ==> parse_signed(int_text(n as int)) == Some(n as int),
        i64::MIN <= -n ==> parse_signed(int_text(-(n as int))) == Some(-(n as int)),
        parse_signed(s) is Some ==> s.len() > 0 && (('0' <= s[0] && s[0] <= '9') || s[0] == '+'
            || s[0] == '-'),
{
    if n <= limit {
        lemma_parse_unsigned_text(n, width, limit);
    } else {
        lemma_dec_text(n);
        assert(is_digit(dec_text(n)[0]));
    }
    if n <= i64::MAX {
        lemma_parse_signed_text(n as int);
    }
    if i64::MIN <= -n {
        lemma_parse_signed_text(-(n as int));
    }
    if parse_unsigned(s, limit) is Some {
        let body = if s.len() > 1 && s[0] == '+' {
            s.skip(1)
        } else {
            s
        };
        assert forall|i: int| 0 < i < s.len() implies '0' <= #[trigger] s[i] && s[i] <= '9' by {
            if s.len() > 1 && s[0] == '+' {
                assert(is_digit(body[i - 1]));
            } else {
                assert(is_digit(body[i]));
            }
        }
        assert(is_digit(body[0]));
    }
    if parse_signed(s) is Some && !(s.len() > 1 && s[0] == '-') {
        assert(parse_unsigned(s, 0x7fff_ffff_ffff_ffff) is Some);
        assert(s.len() > 1 && s[0] == '+' || is_digit(s[0]));
    }
}

/// A text stands for a UUID exactly if it is read as one.
pub proof fn law_uuid_reading(text: Seq<char>)
    ensures
        uuid_parsed(text) is Ok ==> uuid_of_text(text) == Some(uuid_parsed(text)->Ok_0),
        uuid_parsed(text) is Err ==> uuid_of_text(text) is None && uuid_error(text) == uuid_parsed(
            text,
        )->Err_0,
{
}

/// A plus sign in front of a numeral does not change its number.
pub proof fn law_plus_sign(n: nat, limit: nat)
    requires
        n <= limit,
    ensures
        parse_unsigned(seq!['+'] + dec_text(n), limit) == Some(n),
        n <= i64::MAX ==> parse_signed(seq!['+'] + dec_text(n)) == Some(n as int),
{
    lemma_dec_text(n);
    assert((seq!['+'] + dec_text(n)).skip(1) =~= dec_text(n));
}

} // verus!
