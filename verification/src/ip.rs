//! The grammar of IP address literals.
//!
//! An IPv4 literal is four decimal octets separated by dots, none with a
//! leading zero. An IPv6 literal is eight groups of one to four hexadecimal
//! digits separated by colons, where one run of zero groups may be written
//! as `::` and the last two groups may be written as an IPv4 literal.

use crate::text::chars_of;
use vstd::slice::slice_subrange;
use vstd::prelude::*;

verus! {

/// One of the ten decimal digits.
pub open spec fn is_decimal_digit(c: char) -> bool {
    '0' <= c <= '9'
}

/// A decimal digit or one of the letters `a` to `f`, in either case.
pub open spec fn is_hex_digit(c: char) -> bool {
    is_decimal_digit(c) || 'a' <= c <= 'f' || 'A' <= c <= 'F'
}

/// The number that the decimal digits `s` write.
pub open spec fn decimal_value(s: Seq<char>) -> nat
    decreases s.len(),
{
    if s.len() == 0 {
        0
    } else {
        (decimal_value(s.drop_last()) * 10 + (s.last() as u32 - '0' as u32)) as nat
    }
}

/// The pieces of `s` between the occurrences of `separator`. There is one
/// piece more than there are separators; a piece may be empty.
pub open spec fn fields(s: Seq<char>, separator: char) -> Seq<Seq<char>>
    decreases s.len(),
{
    if s.len() == 0 {
        seq![Seq::empty()]
    } else if s.last() == separator {
        fields(s.drop_last(), separator).push(Seq::empty())
    } else {
        let before = fields(s.drop_last(), separator);
        before.drop_last().push(before.last().push(s.last()))
    }
}

/// One to three decimal digits without a leading zero that write a number
/// up to 255.
pub open spec fn is_octet(s: Seq<char>) -> bool {
    &&& 1 <= s.len() <= 3
    &&& forall|i: int| 0 <= i < s.len() ==> is_decimal_digit(#[trigger] s[i])
    &&& (s.len() > 1 ==> s[0] != '0')
    &&& decimal_value(s) <= 255
}

/// One to four hexadecimal digits.
pub open spec fn is_group(s: Seq<char>) -> bool {
    &&& 1 <= s.len() <= 4
    &&& forall|i: int| 0 <= i < s.len() ==> is_hex_digit(#[trigger] s[i])
}

/// Four octets separated by dots.
pub open spec fn is_ipv4(s: Seq<char>) -> bool {
    &&& fields(s, '.').len() == 4
    &&& forall|i: int| 0 <= i < 4 ==> is_octet(#[trigger] fields(s, '.')[i])
}

/// The number of 16-bit groups that `s` writes, where `s` is a list of
/// groups separated by colons. With `quad`, the last item may be an IPv4
/// literal, which stands for two groups. The empty text writes no group.
pub open spec fn group_count(s: Seq<char>, quad: bool) -> Option<nat> {
    let items = fields(s, ':');
    if s.len() == 0 {
        Some(0)
    } else if !(forall|i: int| 0 <= i < items.len() - 1 ==> is_group(#[trigger] items[i])) {
        None
    } else if is_group(items.last()) {
        Some(items.len())
    } else if quad && is_ipv4(items.last()) {
        Some(items.len() + 1)
    } else {
        None
    }
}

/// Whether `s` has `::` at `at`, with groups before and behind it that
/// leave at least one of the eight groups to the `::`.
pub open spec fn elides_at(s: Seq<char>, at: int) -> bool {
    &&& 0 <= at
    &&& at + 2 <= s.len()
    &&& s[at] == ':'
    &&& s[at + 1] == ':'
    &&& group_count(s.take(at), false) is Some
    &&& group_count(s.skip(at + 2), true) is Some
    &&& group_count(s.take(at), false)->0 + group_count(s.skip(at + 2), true)->0 <= 7
}

/// Eight groups, or fewer with one `::` that stands for the rest.
pub open spec fn is_ipv6(s: Seq<char>) -> bool {
    group_count(s, true) == Some(8nat) || exists|at: int| elides_at(s, at)
}

/// Whether `s` is an IP address literal of either family.
pub open spec fn is_ip_literal(s: Seq<char>) -> bool {
    is_ipv4(s) || is_ipv6(s)
}

/// A text has one piece more than it has separators, so the pieces and the
/// characters of the last piece together are at most one more than the
/// characters of the text.
pub proof fn lemma_fields_len(s: Seq<char>, separator: char)
    ensures
        fields(s, separator).len() >= 1,
        fields(s, separator).len() + fields(s, separator).last().len() <= s.len() + 1,
    decreases s.len(),
{
    if s.len() > 0 {
        lemma_fields_len(s.drop_last(), separator);
    }
}

/// The texts that a list of pieces holds.
pub open spec fn piece_views(pieces: Seq<Vec<char>>) -> Seq<Seq<char>> {
    pieces.map_values(|p: Vec<char>| p@)
}

/// Splits `s` at every occurrence of `separator`.
pub fn split(s: &[char], separator: char) -> (pieces: Vec<Vec<char>>)
    ensures
        piece_views(pieces@) == fields(s@, separator),
        pieces.len() >= 1,
{
    let mut done: Vec<Vec<char>> = Vec::new();
    let mut current: Vec<char> = Vec::new();
    let mut i: usize = 0;
    assert(s@.take(0) =~= Seq::<char>::empty());
    assert(piece_views(done@).push(current@) =~= fields(s@.take(0), separator));
    while i < s.len()
        invariant
            i <= s.len(),
            piece_views(done@).push(current@) == fields(s@.take(i as int), separator),
        decreases s.len() - i,
    {
        let c = s[i];
        proof {
            assert(s@.take(i + 1).drop_last() =~= s@.take(i as int));
            assert(s@.take(i + 1).last() == c);
        }
        if c == separator {
            let ghost before = piece_views(done@).push(current@);
            done.push(current);
            current = Vec::new();
            assert(piece_views(done@) =~= before);
        } else {
            let ghost before = piece_views(done@).push(current@);
            current.push(c);
            assert(piece_views(done@).push(current@) =~= before.drop_last().push(
                before.last().push(c),
            ));
        }
        i = i + 1;
    }
    assert(s@.take(i as int) =~= s@);
    let ghost all = piece_views(done@).push(current@);
    done.push(current);
    assert(piece_views(done@) =~= all);
    done
}

/// Whether `s` is an octet.
pub fn octet(s: &[char]) -> (yes: bool)
    ensures
        yes == is_octet(s@),
{
    let n = s.len();
    if n < 1 || n > 3 {
        return false;
    }
    let mut value: u32 = 0;
    let mut i: usize = 0;
    assert(s@.take(0) =~= Seq::<char>::empty());
    while i < n
        invariant
            i <= n <= 3,
            n == s.len(),
            forall|j: int| 0 <= j < i ==> is_decimal_digit(#[trigger] s@[j]),
            value == decimal_value(s@.take(i as int)),
            i == 0 ==> value == 0,
            i == 1 ==> value <= 9,
            i == 2 ==> value <= 99,
            i == 3 ==> value <= 999,
        decreases n - i,
    {
        let c = s[i];
        if !('0' <= c && c <= '9') {
            return false;
        }
        proof {
            assert(s@.take(i + 1).drop_last() =~= s@.take(i as int));
            assert(s@.take(i + 1).last() == c);
        }
        value = value * 10 + (c as u32 - '0' as u32);
        i = i + 1;
    }
    assert(s@.take(n as int) =~= s@);
    if n > 1 && s[0] == '0' {
        return false;
    }
    value <= 255
}

/// Whether `s` is a group of hexadecimal digits.
pub fn group(s: &[char]) -> (yes: bool)
    ensures
        yes == is_group(s@),
{
    let n = s.len();
    if n < 1 || n > 4 {
        return false;
    }
    let mut i: usize = 0;
    while i < n
        invariant
            i <= n,
            n == s.len(),
            forall|j: int| 0 <= j < i ==> is_hex_digit(#[trigger] s@[j]),
        decreases n - i,
    {
        let c = s[i];
        if !(('0' <= c && c <= '9') || ('a' <= c && c <= 'f') || ('A' <= c && c <= 'F')) {
            return false;
        }
        i = i + 1;
    }
    true
}

/// Whether `s` is an IPv4 literal.
pub fn ipv4(s: &[char]) -> (yes: bool)
    ensures
        yes == is_ipv4(s@),
{
    let pieces = split(s, '.');
    if pieces.len() != 4 {
        return false;
    }
    let mut i: usize = 0;
    while i < 4
        invariant
            i <= 4,
            pieces.len() == 4,
            piece_views(pieces@) == fields(s@, '.'),
            forall|j: int| 0 <= j < i ==> is_octet(#[trigger] fields(s@, '.')[j]),
        decreases 4 - i,
    {
        assert(piece_views(pieces@)[i as int] == pieces@[i as int]@);
        if !octet(pieces[i].as_slice()) {
            return false;
        }
        i = i + 1;
    }
    true
}

/// The number of groups that `s` writes, if it is a list of groups.
pub fn count_groups(s: &[char], quad: bool) -> (count: Option<usize>)
    ensures
        match count {
            Some(n) => group_count(s@, quad) == Some(n as nat),
            None => group_count(s@, quad) is None,
        },
{
    if s.len() == 0 {
        return Some(0);
    }
    let items = split(s, ':');
    let ghost texts = fields(s@, ':');
    let last = items.len() - 1;
    let mut i: usize = 0;
    while i < last
        invariant
            i <= last,
            last == items.len() - 1,
            piece_views(items@) == texts,
            texts == fields(s@, ':'),
            s.len() > 0,
            forall|j: int| 0 <= j < i ==> is_group(#[trigger] texts[j]),
        decreases last - i,
    {
        assert(texts[i as int] == items@[i as int]@);
        if !group(items[i].as_slice()) {
            assert(!is_group(texts[i as int]));
            return None;
        }
        i = i + 1;
    }
    assert(texts.last() == items@[last as int]@);
    if group(items[last].as_slice()) {
        Some(items.len())
    } else if quad && ipv4(items[last].as_slice()) {
        proof {
            lemma_fields_len(s@, ':');
            lemma_fields_len(texts.last(), '.');
        }
        Some(items.len() + 1)
    } else {
        None
    }
}

/// Whether `s` is an IPv6 literal.
pub fn ipv6(s: &[char]) -> (yes: bool)
    ensures
        yes == is_ipv6(s@),
{
    match count_groups(s, true) {
        Some(n) => {
            if n == 8 {
                return true;
            }
        },
        None => {},
    }
    let n = s.len();
    let end: usize = if n >= 2 {
        n - 1
    } else {
        0
    };
    let mut at: usize = 0;
    while at < end
        invariant
            n == s.len(),
            at <= end,
            end + 1 == n || (end == 0 && n < 2),
            forall|a: int| 0 <= a < at ==> !elides_at(s@, a),
        decreases end - at,
    {
        if s[at] == ':' && s[at + 1] == ':' {
            let head = slice_subrange(s, 0, at);
            let tail = slice_subrange(s, at + 2, n);
            proof {
                assert(s@.subrange(0, at as int) =~= s@.take(at as int));
                assert(s@.subrange(at + 2, n as int) =~= s@.skip(at + 2));
            }
            match (count_groups(head, false), count_groups(tail, true)) {
                (Some(before), Some(behind)) => {
                    if before <= 7 && behind <= 7 - before {
                        assert(elides_at(s@, at as int));
                        return true;
                    }
                },
                _ => {},
            }
        }
        at = at + 1;
    }
    assert forall|a: int| !elides_at(s@, a) by {
        if elides_at(s@, a) {
            assert(a < at);
        }
    }
    false
}

/// Whether `s` is an IP address literal of either family.
pub fn ip_literal(s: &str) -> (yes: bool)
    ensures
        yes == is_ip_literal(s@),
{
    let chars = chars_of(s);
    ipv4(chars.as_slice()) || ipv6(chars.as_slice())
}

} // verus!
