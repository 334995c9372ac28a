//! The few string operations the rest of the crate is written with, each
//! stated over the characters of its arguments.

use vstd::prelude::*;

verus! {

/// `s` without the run of `/` at its end.
pub open spec fn trimmed(s: Seq<char>) -> Seq<char>
    decreases s.len(),
{
    if s.len() > 0 && s.last() == '/' {
        trimmed(s.drop_last())
    } else {
        s
    }
}

/// What stands before the last `/` of `s`; nothing when `s` holds none.
pub open spec fn directory(s: Seq<char>) -> Seq<char>
    decreases s.len(),
{
    if s.len() == 0 {
        s
    } else if s.last() == '/' {
        s.drop_last()
    } else {
        directory(s.drop_last())
    }
}

/// `needle` stands in `s`, beginning at `at`.
pub open spec fn occurs_at(s: Seq<char>, needle: Seq<char>, at: int) -> bool {
    &&& 0 <= at
    &&& at + needle.len() <= s.len()
    &&& s.subrange(at, at + needle.len()) == needle
}

/// `needle` stands somewhere in `s`.
pub open spec fn contains_text(s: Seq<char>, needle: Seq<char>) -> bool {
    exists|at: int| occurs_at(s, needle, at)
}

/// The character of a decimal digit.
pub open spec fn digit(d: nat) -> char
    recommends
        d < 10,
{
    if d == 0 {
        '0'
    } else if d == 1 {
        '1'
    } else if d == 2 {
        '2'
    } else if d == 3 {
        '3'
    } else if d == 4 {
        '4'
    } else if d == 5 {
        '5'
    } else if d == 6 {
        '6'
    } else if d == 7 {
        '7'
    } else if d == 8 {
        '8'
    } else {
        '9'
    }
}

/// `n` in decimal, without leading zeros.
pub open spec fn decimal(n: nat) -> Seq<char>
    decreases n,
{
    if n < 10 {
        seq![digit(n)]
    } else {
        decimal(n / 10).push(digit(n % 10))
    }
}

/// The character of a hexadecimal digit.
pub open spec fn hex_digit(d: nat) -> char
    recommends
        d < 16,
{
    if d < 10 {
        digit(d)
    } else if d == 10 {
        'a'
    } else if d == 11 {
        'b'
    } else if d == 12 {
        'c'
    } else if d == 13 {
        'd'
    } else if d == 14 {
        'e'
    } else {
        'f'
    }
}

/// Bytes in lowercase hexadecimal, two digits each.
pub open spec fn hexadecimal(bytes: Seq<u8>) -> Seq<char>
    decreases bytes.len(),
{
    if bytes.len() == 0 {
        Seq::empty()
    } else {
        hexadecimal(bytes.drop_last()).push(hex_digit(bytes.last() as nat / 16)).push(
            hex_digit(bytes.last() as nat % 16),
        )
    }
}

/// Whether two texts are the same, character by character.
pub fn same_text(a: &str, b: &str) -> (r: bool)
    ensures
        r == (a@ == b@),
{
    a.to_string() == b.to_string()
}

/// The text without its trailing slashes.
pub fn trim_end_slashes(s: &str) -> (r: &str)
    ensures
        r@ == trimmed(s@),
{
    let len: usize = s.unicode_len();
    let mut end: usize = len;
    proof {
        assert(s@.take(len as int) =~= s@);
    }
    while end > 0 && s.get_char(end - 1) == '/'
        invariant
            end <= len,
            len == s@.len(),
            trimmed(s@.take(end as int)) == trimmed(s@),
        decreases end,
    {
        proof {
            assert(s@.take(end as int).drop_last() =~= s@.take(end - 1));
        }
        end = end - 1;
    }
    let r = s.substring_char(0, end);
    proof {
        assert(r@ =~= s@.take(end as int));
    }
    r
}

/// The part of a path before its last slash; empty when it has none.
pub fn directory_of(path: &str) -> (r: &str)
    ensures
        r@ == directory(path@),
{
    let len: usize = path.unicode_len();
    let mut end: usize = len;
    proof {
        assert(path@.take(len as int) =~= path@);
    }
    while end > 0
        invariant
            end <= len,
            len == path@.len(),
            directory(path@.take(end as int)) == directory(path@),
        decreases end,
    {
        proof {
            assert(path@.take(end as int).drop_last() =~= path@.take(end - 1));
        }
        if path.get_char(end - 1) == '/' {
            let r = path.substring_char(0, end - 1);
            proof {
                assert(r@ =~= path@.take(end - 1));
            }
            return r;
        }
        end = end - 1;
    }
    let r = path.substring_char(0, 0);
    proof {
        assert(r@ =~= path@.take(0));
    }
    r
}

/// Whether `needle` stands somewhere in `s`.
pub fn contains(s: &str, needle: &str) -> (r: bool)
    ensures
        r == contains_text(s@, needle@),
{
    let len: usize = s.unicode_len();
    let width: usize = needle.unicode_len();
    if width > len {
        return false;
    }
    let mut at: usize = len - width;
    while !same_text(s.substring_char(at, at + width), needle)
        invariant
            len == s@.len(),
            width == needle@.len(),
            at + width <= len,
            forall|i: int| at < i ==> !occurs_at(s@, needle@, i),
        decreases at,
    {
        if at == 0 {
            return false;
        }
        at = at - 1;
    }
    proof {
        assert(occurs_at(s@, needle@, at as int));
    }
    true
}

fn digit_text(d: u8) -> (text: &'static str)
    requires
        d < 16,
    ensures
        text@ == seq![hex_digit(d as nat)],
{
    proof {
        reveal_strlit("0");
        reveal_strlit("1");
        reveal_strlit("2");
        reveal_strlit("3");
        reveal_strlit("4");
        reveal_strlit("5");
        reveal_strlit("6");
        reveal_strlit("7");
        reveal_strlit("8");
        reveal_strlit("9");
        reveal_strlit("a");
        reveal_strlit("b");
        reveal_strlit("c");
        reveal_strlit("d");
        reveal_strlit("e");
        reveal_strlit("f");
    }
    let text = match d {
        0 => "0",
        1 => "1",
        2 => "2",
        3 => "3",
        4 => "4",
        5 => "5",
        6 => "6",
        7 => "7",
        8 => "8",
        9 => "9",
        10 => "a",
        11 => "b",
        12 => "c",
        13 => "d",
        14 => "e",
        _ => "f",
    };
    assert(text@ =~= seq![hex_digit(d as nat)]);
    text
}

/// Write `n` in decimal at the end of `out`.
pub fn push_decimal(out: &mut String, n: usize)
    ensures
        final(out)@ == old(out)@ + decimal(n as nat),
    decreases n,
{
    if n >= 10 {
        push_decimal(out, n / 10);
    }
    let text = digit_text((n % 10) as u8);
    out.append(text);
    proof {
        if n >= 10 {
            assert(old(out)@ + decimal(n as nat) =~= old(out)@ + decimal((n / 10) as nat) + text@);
        }
    }
}

/// Bytes in lowercase hexadecimal, as a content hash is written.
pub fn hex(bytes: &Vec<u8>) -> (text: String)
    ensures
        text@ == hexadecimal(bytes@),
{
    let mut text: String = String::new();
    let len: usize = bytes.len();
    let mut i: usize = 0;
    while i < len
        invariant
            i <= len,
            len == bytes@.len(),
            text@ == hexadecimal(bytes@.take(i as int)),
        decreases len - i,
    {
        proof {
            assert(bytes@.take(i + 1).drop_last() =~= bytes@.take(i as int));
        }
        let high = digit_text(bytes[i] / 16);
        let low = digit_text(bytes[i] % 16);
        text.append(high);
        text.append(low);
        assert(text@ =~= hexadecimal(bytes@.take(i + 1)));
        i = i + 1;
    }
    proof {
        assert(bytes@.take(len as int) =~= bytes@);
    }
    text
}

/// Only slashes are trimmed, and all of them at the end: what stays is a prefix that
/// does not end in a slash, and every character behind it is one. A text that does
/// not end in a slash stays as it is.
pub proof fn law_only_trailing_slashes_are_trimmed(s: Seq<char>)
    ensures
        trimmed(s).len() <= s.len(),
        trimmed(s) == s.take(trimmed(s).len() as int),
        trimmed(s).len() > 0 ==> trimmed(s).last() != '/',
        forall|i: int| trimmed(s).len() <= i < s.len() ==> #[trigger] s[i] == '/',
        s.len() > 0 && s.last() != '/' ==> trimmed(s) == s,
    decreases s.len(),
{
    if s.len() > 0 && s.last() == '/' {
        let rest = s.drop_last();
        law_only_trailing_slashes_are_trimmed(rest);
        assert(rest.take(trimmed(rest).len() as int) =~= s.take(trimmed(rest).len() as int));
        assert forall|i: int| trimmed(s).len() <= i < s.len() implies #[trigger] s[i] == '/' by {
            if i < rest.len() {
                assert(rest[i] == s[i]);
            }
        }
    } else {
        assert(s.take(s.len() as int) =~= s);
    }
}

/// [`trim_end_slashes`] gives back a prefix that does not end in a slash, and drops
/// nothing but slashes.
pub proof fn law_trim_drops_slashes_alone(s: &str, r: &str)
    requires
        call_ensures(trim_end_slashes, (s,), r),
    ensures
        r@.len() <= s@.len(),
        forall|i: int| 0 <= i < r@.len() ==> #[trigger] r@[i] == s@[i],
        r@.len() > 0 ==> r@.last() != '/',
        forall|i: int| r@.len() <= i < s@.len() ==> #[trigger] s@[i] == '/',
{
    law_only_trailing_slashes_are_trimmed(s@);
}

/// The directory of a path ends before the path's last slash; a path without one has
/// none.
pub proof fn law_directory_ends_at_the_last_slash(s: Seq<char>)
    ensures
        !s.contains('/') ==> directory(s).len() == 0,
        s.contains('/') ==> {
            let n = directory(s).len() as int;
            &&& n < s.len()
            &&& directory(s) == s.take(n)
            &&& s[n] == '/'
            &&& forall|i: int| n < i < s.len() ==> #[trigger] s[i] != '/'
        },
    decreases s.len(),
{
    if s.len() > 0 {
        let rest = s.drop_last();
        if s.last() == '/' {
            assert(s[s.len() - 1] == '/');
            assert(s.contains('/'));
            assert(rest =~= s.take(s.len() - 1));
        } else {
            law_directory_ends_at_the_last_slash(rest);
            if s.contains('/') {
                let i = choose|i: int| 0 <= i < s.len() && s[i] == '/';
                assert(rest[i] == '/');
                assert(rest.contains('/'));
                let n = directory(s).len() as int;
                assert(rest.take(n) =~= s.take(n));
                assert(rest[n] == s[n]);
                assert forall|i: int| n < i < s.len() implies #[trigger] s[i] != '/' by {
                    if i < rest.len() {
                        assert(rest[i] == s[i]);
                    }
                }
            } else if rest.contains('/') {
                let i = choose|i: int| 0 <= i < rest.len() && rest[i] == '/';
                assert(s[i] == '/');
            }
        }
    }
}

/// [`directory_of`] cuts a path at its last slash, and keeps all that stands before.
pub proof fn law_directory_of_cuts_at_the_last_slash(path: &str, r: &str)
    requires
        call_ensures(directory_of, (path,), r),
    ensures
        (forall|i: int| 0 <= i < path@.len() ==> #[trigger] path@[i] != '/') ==> r@.len() == 0,
        (exists|i: int| 0 <= i < path@.len() && #[trigger] path@[i] == '/') ==> {
            &&& r@.len() < path@.len()
            &&& path@[r@.len() as int] == '/'
            &&& forall|i: int| 0 <= i < r@.len() ==> #[trigger] r@[i] == path@[i]
            &&& forall|i: int| r@.len() < i < path@.len() ==> #[trigger] path@[i] != '/'
        },
{
    law_directory_ends_at_the_last_slash(path@);
    if exists|i: int| 0 <= i < path@.len() && #[trigger] path@[i] == '/' {
        let i = choose|i: int| 0 <= i < path@.len() && #[trigger] path@[i] == '/';
        assert(path@.contains('/'));
    }
}

/// A text contains exactly what it can be cut around.
pub proof fn law_text_contains_what_stands_in_it(a: Seq<char>, needle: Seq<char>, b: Seq<char>)
    ensures
        contains_text(a + needle + b, needle),
        forall|s: Seq<char>| #[trigger]
            contains_text(s, needle) ==> exists|l: Seq<char>, r: Seq<char>|
                s == #[trigger] (l + needle + r),
{
    let whole = a + needle + b;
    assert(whole.subrange(a.len() as int, a.len() as int + needle.len()) =~= needle);
    assert(occurs_at(whole, needle, a.len() as int));
    assert forall|s: Seq<char>| #[trigger] contains_text(s, needle) implies exists|
        l: Seq<char>,
        r: Seq<char>,
    | s == #[trigger] (l + needle + r) by {
        let at = choose|at: int| occurs_at(s, needle, at);
        let l = s.take(at);
        let r = s.skip(at + needle.len());
        assert(s =~= l + needle + r);
    }
}

/// [`contains`] finds a text exactly where all its characters stand in a row.
pub proof fn law_contains_finds_a_run_of_characters(s: &str, needle: &str, r: bool)
    requires
        call_ensures(contains, (s, needle), r),
    ensures
        r <==> exists|at: int|
            0 <= at && at + needle@.len() <= s@.len() && #[trigger] s@.skip(at).take(
                needle@.len() as int,
            ) == needle@,
{
    if r {
        let at = choose|at: int| occurs_at(s@, needle@, at);
        assert(s@.skip(at).take(needle@.len() as int) =~= s@.subrange(at, at + needle@.len()));
    }
    if exists|at: int|
        0 <= at && at + needle@.len() <= s@.len() && #[trigger] s@.skip(at).take(
            needle@.len() as int,
        ) == needle@ {
        let at = choose|at: int|
            0 <= at && at + needle@.len() <= s@.len() && #[trigger] s@.skip(at).take(
                needle@.len() as int,
            ) == needle@;
        assert(s@.skip(at).take(needle@.len() as int) =~= s@.subrange(at, at + needle@.len()));
        assert(occurs_at(s@, needle@, at));
    }
}

/// [`same_text`] tells two texts apart by any one character, and by nothing else.
pub proof fn law_same_text_looks_at_every_character(a: &str, b: &str, r: bool)
    requires
        call_ensures(same_text, (a, b), r),
    ensures
        r <==> a@.len() == b@.len() && forall|i: int|
            0 <= i < a@.len() ==> #[trigger] a@[i] == b@[i],
{
    if a@.len() == b@.len() && forall|i: int| 0 <= i < a@.len() ==> #[trigger] a@[i] == b@[i] {
        assert(a@ =~= b@);
    }
}

/// The number that a row of decimal digits stands for.
pub open spec fn digits_value(digits: Seq<char>) -> int
    decreases digits.len(),
{
    if digits.len() == 0 {
        0
    } else {
        digits_value(digits.drop_last()) * 10 + (digits.last() as int - '0' as int)
    }
}

/// A number is written in digits that read back as the number, with no leading zero.
pub proof fn law_decimal_reads_back(n: nat)
    ensures
        digits_value(decimal(n)) == n,
        forall|i: int| 0 <= i < decimal(n).len() ==> '0' <= #[trigger] decimal(n)[i] <= '9',
        decimal(n).len() > 0,
        decimal(n)[0] == '0' ==> n == 0 && decimal(n).len() == 1,
    decreases n,
{
    if n < 10 {
        assert(decimal(n).drop_last() =~= Seq::<char>::empty());
        assert(digits_value(Seq::<char>::empty()) == 0);
    } else {
        law_decimal_reads_back(n / 10);
        assert(decimal(n).drop_last() =~= decimal(n / 10));
    }
}

/// [`push_decimal`] leaves what was written before, and adds digits that read back as
/// the number, with no leading zero.
pub proof fn law_pushed_decimal_reads_back()
    ensures
        forall|out: &mut String, n: usize| #[trigger]
            call_ensures(push_decimal, (out, n), ()) ==> {
                let added = (*final(out))@.skip((*out)@.len() as int);
                &&& (*final(out))@ == (*out)@ + added
                &&& digits_value(added) == n
                &&& forall|i: int| 0 <= i < added.len() ==> '0' <= #[trigger] added[i] <= '9'
                &&& added.len() > 0
                &&& added[0] == '0' ==> n == 0 && added.len() == 1
            },
{
    assert forall|out: &mut String, n: usize| #[trigger]
        call_ensures(push_decimal, (out, n), ()) implies {
        let added = (*final(out))@.skip((*out)@.len() as int);
        &&& (*final(out))@ == (*out)@ + added
        &&& digits_value(added) == n
        &&& forall|i: int| 0 <= i < added.len() ==> '0' <= #[trigger] added[i] <= '9'
        &&& added.len() > 0
        &&& added[0] == '0' ==> n == 0 && added.len() == 1
    } by {
        law_decimal_reads_back(n as nat);
        assert((*final(out))@.skip((*out)@.len() as int) =~= decimal(n as nat));
    }
}

/// The value of a lowercase hexadecimal digit.
pub open spec fn hex_value(c: char) -> int {
    if '0' <= c <= '9' {
        c as int - '0' as int
    } else {
        c as int - 'a' as int + 10
    }
}

/// A byte is written as two lowercase digits, the high one first, that read back as
/// the byte; no byte is left out.
pub proof fn law_hexadecimal_reads_back(bytes: Seq<u8>)
    ensures
        hexadecimal(bytes).len() == 2 * bytes.len(),
        forall|i: int|
            0 <= i < hexadecimal(bytes).len() ==> '0' <= #[trigger] hexadecimal(bytes)[i] <= '9'
                || 'a' <= hexadecimal(bytes)[i] <= 'f',
        forall|i: int|
            0 <= i < bytes.len() ==> #[trigger] bytes[i] as int == hex_value(
                hexadecimal(bytes)[2 * i],
            ) * 16 + hex_value(hexadecimal(bytes)[2 * i + 1]),
    decreases bytes.len(),
{
    if bytes.len() > 0 {
        let rest = bytes.drop_last();
        law_hexadecimal_reads_back(rest);
        let last = bytes.last() as nat;
        assert(last / 16 < 16);
        let high = hex_digit(last / 16);
        let low = hex_digit(last % 16);
        assert('0' <= high <= '9' || 'a' <= high <= 'f');
        assert('0' <= low <= '9' || 'a' <= low <= 'f');
        assert(hex_value(high) == last / 16);
        assert(hex_value(low) == last % 16);
        let text = hexadecimal(bytes);
        assert(text =~= hexadecimal(rest).push(high).push(low));
        assert forall|i: int| 0 <= i < text.len() implies '0' <= #[trigger] text[i] <= '9' || 'a'
            <= text[i] <= 'f' by {
            if i < hexadecimal(rest).len() {
                assert(text[i] == hexadecimal(rest)[i]);
            }
        }
        assert forall|i: int| 0 <= i < bytes.len() implies #[trigger] bytes[i] as int == hex_value(
            text[2 * i],
        ) * 16 + hex_value(text[2 * i + 1]) by {
            if i < rest.len() {
                assert(rest[i] == bytes[i]);
                assert(text[2 * i] == hexadecimal(rest)[2 * i]);
                assert(text[2 * i + 1] == hexadecimal(rest)[2 * i + 1]);
            }
        }
    }
}

/// [`hex`] writes a hash that reads back byte by byte.
pub proof fn law_hex_reads_back(bytes: Vec<u8>, text: String)
    requires
        call_ensures(hex, (&bytes,), text),
    ensures
        text@.len() == 2 * bytes@.len(),
        forall|i: int|
            0 <= i < text@.len() ==> '0' <= #[trigger] text@[i] <= '9' || 'a' <= text@[i] <= 'f',
        forall|i: int|
            0 <= i < bytes@.len() ==> #[trigger] bytes@[i] as int == hex_value(text@[2 * i]) * 16
                + hex_value(text@[2 * i + 1]),
{
    law_hexadecimal_reads_back(bytes@);
}

} // verus!
