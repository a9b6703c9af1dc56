//! The pieces that the report format is made of: quoted strings, numbers and
//! fixed text, each with the reader that takes it back in.
//!
//! A reader works on the characters of a document and a position in it. Where
//! the piece it reads starts at that position it hands back the value and the
//! position behind the piece.

use crate::text::{
    bounded_number, chars_of, decimal, digit_char, digits_end, is_digit,
    lemma_decimal_value, read_number, scan_digits,
};
use vstd::prelude::*;

verus! {

/// The character that stands for `d` in base sixteen.
pub open spec fn hex_digit(d: nat) -> char
    recommends
        d < 16,
{
    if d < 10 {
        digit_char(d)
    } else {
        ((0x61 + d - 10) as u8) as char
    }
}

/// The number that a digit of base sixteen stands for; capitals are not
/// digits here.
pub open spec fn hex_value(c: char) -> Option<nat> {
    let n = c as u32;
    if 0x30 <= n <= 0x39 {
        Some((n - 0x30) as nat)
    } else if 0x61 <= n <= 0x66 {
        Some((n - 0x61 + 10) as nat)
    } else {
        None
    }
}

/// The control character with the code `n`.
pub open spec fn control_char(n: nat) -> char
    recommends
        n < 0x20,
{
    (n as u8) as char
}

/// How one character stands inside a quoted string: a backslash goes before a
/// quote and before a backslash, a control character becomes `\u00` and its
/// code in two digits of base sixteen, any other character stands for itself.
pub open spec fn escaped_char(c: char) -> Seq<char> {
    if c == '"' {
        seq!['\\', '"']
    } else if c == '\\' {
        seq!['\\', '\\']
    } else if (c as u32) < 0x20 {
        seq![
            '\\',
            'u',
            '0',
            '0',
            hex_digit((c as u32 / 16) as nat),
            hex_digit((c as u32 % 16) as nat),
        ]
    } else {
        seq![c]
    }
}

/// The characters of `s` from index `i` on, as they stand inside a quoted
/// string.
pub open spec fn escaped_from(s: Seq<char>, i: int) -> Seq<char>
    decreases s.len() - i,
{
    if 0 <= i < s.len() {
        escaped_char(s[i]) + escaped_from(s, i + 1)
    } else {
        Seq::empty()
    }
}

/// `s` as a quoted string.
pub open spec fn quoted(s: Seq<char>) -> Seq<char> {
    seq!['"'] + (escaped_from(s, 0) + seq!['"'])
}

/// Tells whether `piece` stands in `t` at position `i`.
pub open spec fn at(t: Seq<char>, i: int, piece: Seq<char>) -> bool {
    0 <= i && i + piece.len() <= t.len() && t.subrange(i, i + piece.len()) == piece
}

/// The number that stands in `t` at position `i`, with the position behind
/// it: the longest run of digits there, if it denotes at most `max`.
pub open spec fn number_at(t: Seq<char>, i: int, max: nat) -> Option<(nat, int)> {
    if 0 <= i <= t.len() {
        let end = digits_end(t, i);
        match bounded_number(t.subrange(i, end), max) {
            Some(n) => Some((n, end)),
            None => None,
        }
    } else {
        None
    }
}

/// The character that stands at position `i` inside a quoted string, with the
/// position behind it.
pub open spec fn char_at(t: Seq<char>, i: int) -> Option<(char, int)> {
    if !(0 <= i < t.len()) {
        None
    } else if t[i] == '\\' {
        if i + 1 < t.len() && t[i + 1] == '"' {
            Some(('"', i + 2))
        } else if i + 1 < t.len() && t[i + 1] == '\\' {
            Some(('\\', i + 2))
        } else if i + 5 < t.len() && t[i + 1] == 'u' && t[i + 2] == '0' && t[i + 3] == '0'
            && hex_value(t[i + 4]) is Some && hex_value(t[i + 5]) is Some && hex_value(
            t[i + 4],
        )->0 * 16 + hex_value(t[i + 5])->0 < 0x20 {
            Some((control_char(hex_value(t[i + 4])->0 * 16 + hex_value(t[i + 5])->0), i + 6))
        } else {
            None
        }
    } else if t[i] == '"' || (t[i] as u32) < 0x20 {
        None
    } else {
        Some((t[i], i + 1))
    }
}

/// The rest of a quoted string whose inside goes on at position `i`, with the
/// position behind its closing quote.
pub open spec fn string_body_at(t: Seq<char>, i: int) -> Option<(Seq<char>, int)>
    decreases t.len() - i,
{
    if !(0 <= i < t.len()) {
        None
    } else if t[i] == '"' {
        Some((Seq::empty(), i + 1))
    } else {
        match char_at(t, i) {
            Some((c, next)) => match string_body_at(t, next) {
                Some((rest, end)) => Some((seq![c] + rest, end)),
                None => None,
            },
            None => None,
        }
    }
}

/// The quoted string that stands in `t` at position `i`, with the position
/// behind it.
pub open spec fn string_at(t: Seq<char>, i: int) -> Option<(Seq<char>, int)> {
    if 0 <= i < t.len() && t[i] == '"' {
        string_body_at(t, i + 1)
    } else {
        None
    }
}

/// Where two pieces stand one behind the other, each of them stands at its
/// place.
pub proof fn lemma_at_split(t: Seq<char>, i: int, first: Seq<char>, second: Seq<char>)
    requires
        at(t, i, first + second),
    ensures
        at(t, i, first),
        at(t, i + first.len(), second),
{
    let whole = first + second;
    assert(t.subrange(i, i + first.len()) =~= whole.subrange(0, first.len() as int));
    assert(whole.subrange(0, first.len() as int) =~= first);
    assert(t.subrange(i + first.len(), i + first.len() + second.len()) =~= whole.subrange(
        first.len() as int,
        whole.len() as int,
    ));
    assert(whole.subrange(first.len() as int, whole.len() as int) =~= second);
}

/// A piece that stands at `i` holds the characters of `t` from `i` on.
pub proof fn lemma_at_index(t: Seq<char>, i: int, piece: Seq<char>, k: int)
    requires
        at(t, i, piece),
        0 <= k < piece.len(),
    ensures
        t[i + k] == piece[k],
{
    assert(t.subrange(i, i + piece.len())[k] == t[i + k]);
}

proof fn lemma_digits_end(t: Seq<char>, i: int, end: int)
    requires
        0 <= i <= end <= t.len(),
        forall|k: int| i <= k < end ==> is_digit(#[trigger] t[k]),
        end == t.len() || !is_digit(t[end]),
    ensures
        digits_end(t, i) == end,
    decreases end - i,
{
    if i < end {
        lemma_digits_end(t, i + 1, end);
    }
}

/// A numeral is read back as the number it was written for, as long as no
/// digit follows it.
pub proof fn lemma_number_round_trip(t: Seq<char>, i: int, n: nat, max: nat)
    requires
        at(t, i, decimal(n)),
        n <= max,
        i + decimal(n).len() == t.len() || !is_digit(t[i + decimal(n).len()]),
    ensures
        number_at(t, i, max) == Some((n, i + decimal(n).len())),
{
    lemma_decimal_value(n);
    let numeral = decimal(n);
    let end = i + numeral.len();
    assert forall|k: int| i <= k < end implies is_digit(#[trigger] t[k]) by {
        lemma_at_index(t, i, numeral, k - i);
        assert(is_digit(numeral[k - i]));
    }
    lemma_digits_end(t, i, end);
}

proof fn lemma_hex_round_trip(d: nat)
    requires
        d < 16,
    ensures
        hex_value(hex_digit(d)) == Some(d),
{
}

/// A character inside a quoted string is read back as it was written.
pub proof fn lemma_char_round_trip(t: Seq<char>, i: int, c: char)
    requires
        at(t, i, escaped_char(c)),
    ensures
        char_at(t, i) == Some((c, i + escaped_char(c).len())),
        t[i] != '"',
{
    let e = escaped_char(c);
    lemma_at_index(t, i, e, 0);
    if c == '"' || c == '\\' {
        lemma_at_index(t, i, e, 1);
    } else if (c as u32) < 0x20 {
        let n = c as u32;
        lemma_at_index(t, i, e, 1);
        lemma_at_index(t, i, e, 2);
        lemma_at_index(t, i, e, 3);
        lemma_at_index(t, i, e, 4);
        lemma_at_index(t, i, e, 5);
        lemma_hex_round_trip((n / 16) as nat);
        lemma_hex_round_trip((n % 16) as nat);
        assert((n / 16) * 16 + n % 16 == n);
        assert(control_char(n as nat) == c);
    }
}

/// The inside of a quoted string, from index `k` of `s` on, and the closing
/// quote are read back as the rest of `s`.
pub proof fn lemma_string_body_round_trip(t: Seq<char>, i: int, s: Seq<char>, k: int)
    requires
        0 <= k <= s.len(),
        at(t, i, escaped_from(s, k) + seq!['"']),
    ensures
        string_body_at(t, i) == Some(
            (s.subrange(k, s.len() as int), i + escaped_from(s, k).len() + 1),
        ),
    decreases s.len() - k,
{
    if k == s.len() {
        lemma_at_index(t, i, escaped_from(s, k) + seq!['"'], 0);
        assert(s.subrange(k, s.len() as int) =~= Seq::<char>::empty());
    } else {
        let first = escaped_char(s[k]);
        let rest = escaped_from(s, k + 1) + seq!['"'];
        assert(escaped_from(s, k) + seq!['"'] =~= first + rest);
        lemma_at_split(t, i, first, rest);
        lemma_char_round_trip(t, i, s[k]);
        lemma_string_body_round_trip(t, i + first.len(), s, k + 1);
        assert(seq![s[k]] + s.subrange(k + 1, s.len() as int) =~= s.subrange(k, s.len() as int));
    }
}

/// A quoted string is read back as the text it was written for.
pub proof fn lemma_string_round_trip(t: Seq<char>, i: int, s: Seq<char>)
    requires
        at(t, i, quoted(s)),
    ensures
        string_at(t, i) == Some((s, i + quoted(s).len())),
{
    let inside = escaped_from(s, 0) + seq!['"'];
    lemma_at_split(t, i, seq!['"'], inside);
    lemma_at_index(t, i, seq!['"'], 0);
    lemma_string_body_round_trip(t, i + 1, s, 0);
    assert(s.subrange(0, s.len() as int) =~= s);
}

/// The character that stands for `d` in base sixteen.
fn hex_digit_char(d: u8) -> (c: char)
    requires
        d < 16,
    ensures
        c == hex_digit(d as nat),
{
    if d < 10 {
        (0x30u8 + d) as char
    } else {
        (0x61u8 + (d - 10)) as char
    }
}

/// The number that a digit of base sixteen stands for.
fn hex_digit_value(c: char) -> (r: Option<u8>)
    ensures
        match r {
            Some(d) => hex_value(c) == Some(d as nat) && d < 16,
            None => hex_value(c) is None,
        },
{
    let n: u32 = c as u32;
    if 0x30 <= n && n <= 0x39 {
        Some((n - 0x30) as u8)
    } else if 0x61 <= n && n <= 0x66 {
        Some((n - 0x61 + 10) as u8)
    } else {
        None
    }
}

/// Appends `s` to `out` as a quoted string.
pub fn push_quoted(out: &mut String, s: &str)
    ensures
        final(out)@ == old(out)@ + quoted(s@),
{
    let v = chars_of(s);
    out.push('"');
    let mut i: usize = 0;
    while i < v.len()
        invariant
            i <= v.len(),
            v@ == s@,
            out@ + escaped_from(v@, i as int) == old(out)@ + seq!['"'] + escaped_from(v@, 0),
        decreases v.len() - i,
    {
        let ghost before = out@;
        let c = v[i];
        let n: u32 = c as u32;
        if c == '"' {
            out.push('\\');
            out.push('"');
        } else if c == '\\' {
            out.push('\\');
            out.push('\\');
        } else if n < 0x20 {
            out.push('\\');
            out.push('u');
            out.push('0');
            out.push('0');
            out.push(hex_digit_char((n / 16) as u8));
            out.push(hex_digit_char((n % 16) as u8));
        } else {
            out.push(c);
        }
        proof {
            assert(out@ =~= before + escaped_char(c));
            assert(before + escaped_from(v@, i as int) =~= (before + escaped_char(c))
                + escaped_from(v@, i + 1));
        }
        i += 1;
    }
    out.push('"');
    proof {
        assert(out@ =~= old(out)@ + quoted(s@));
    }
}

/// Tells whether `piece` stands in `t` at position `i`, and if so hands back
/// the position behind it.
pub fn expect(t: &Vec<char>, i: usize, piece: &str) -> (r: Option<usize>)
    ensures
        match r {
            Some(next) => at(t@, i as int, piece@) && next == i + piece@.len(),
            None => !at(t@, i as int, piece@),
        },
{
    let p = chars_of(piece);
    if i > t.len() || p.len() > t.len() - i {
        return None;
    }
    let mut k: usize = 0;
    while k < p.len()
        invariant
            k <= p.len(),
            p@ == piece@,
            i + p.len() <= t.len(),
            t@.subrange(i as int, i + k) == p@.subrange(0, k as int),
        decreases p.len() - k,
    {
        if t[i + k] != p[k] {
            proof {
                if at(t@, i as int, piece@) {
                    lemma_at_index(t@, i as int, piece@, k as int);
                }
            }
            return None;
        }
        proof {
            assert(t@.subrange(i as int, i + k + 1) =~= t@.subrange(i as int, i + k).push(
                t@[i + k],
            ));
            assert(p@.subrange(0, k + 1) =~= p@.subrange(0, k as int).push(p@[k as int]));
        }
        k += 1;
    }
    proof {
        assert(p@.subrange(0, p.len() as int) =~= p@);
    }
    Some(i + p.len())
}

/// Reads the number that stands in `t` at position `i`.
pub fn read_number_at(t: &Vec<char>, i: usize, max: u128) -> (r: Option<(u128, usize)>)
    ensures
        match r {
            Some((n, next)) => number_at(t@, i as int, max as nat) == Some(
                (n as nat, next as int),
            ) && i < next <= t.len(),
            None => number_at(t@, i as int, max as nat) is None,
        },
{
    if i > t.len() {
        return None;
    }
    let end = scan_digits(t, i);
    match read_number(t, i, end, max) {
        Some(n) => Some((n, end)),
        None => None,
    }
}

/// Reads the character that stands at position `i` inside a quoted string.
fn read_char_at(t: &Vec<char>, i: usize) -> (r: Option<(char, usize)>)
    requires
        i < t.len(),
    ensures
        match r {
            Some((c, next)) => char_at(t@, i as int) == Some((c, next as int)) && i < next
                <= t.len(),
            None => char_at(t@, i as int) is None,
        },
{
    let c = t[i];
    if c == '\\' {
        if t.len() - i > 1 && t[i + 1] == '"' {
            Some(('"', i + 2))
        } else if t.len() - i > 1 && t[i + 1] == '\\' {
            Some(('\\', i + 2))
        } else if t.len() - i > 5 && t[i + 1] == 'u' && t[i + 2] == '0' && t[i + 3] == '0' {
            match (hex_digit_value(t[i + 4]), hex_digit_value(t[i + 5])) {
                (Some(high), Some(low)) => {
                    if high < 2 {
                        Some(((high * 16 + low) as char, i + 6))
                    } else {
                        None
                    }
                },
                _ => None,
            }
        } else {
            None
        }
    } else if c == '"' || (c as u32) < 0x20 {
        None
    } else {
        Some((c, i + 1))
    }
}

/// Reads the quoted string that stands in `t` at position `i`.
pub fn read_string_at(t: &Vec<char>, i: usize) -> (r: Option<(String, usize)>)
    ensures
        match r {
            Some((s, next)) => string_at(t@, i as int) == Some((s@, next as int)) && i < next
                <= t.len(),
            None => string_at(t@, i as int) is None,
        },
{
    if i >= t.len() || t[i] != '"' {
        return None;
    }
    let mut s = String::new();
    let mut k: usize = i + 1;
    loop
        invariant
            i < k <= t.len(),
            string_at(t@, i as int) == match string_body_at(t@, k as int) {
                Some((rest, end)) => Some((s@ + rest, end)),
                None => None,
            },
        decreases t.len() - k,
    {
        if k >= t.len() {
            return None;
        }
        if t[k] == '"' {
            proof {
                assert(s@ + Seq::<char>::empty() =~= s@);
            }
            return Some((s, k + 1));
        }
        match read_char_at(t, k) {
            Some((c, next)) => {
                proof {
                    let ghost before = s@;
                    match string_body_at(t@, next as int) {
                        Some((rest, end)) => {
                            assert(before + (seq![c] + rest) =~= before.push(c) + rest);
                        },
                        None => {},
                    }
                }
                s.push(c);
                k = next;
            },
            None => {
                return None;
            },
        }
    }
}

} // verus!
