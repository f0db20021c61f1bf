//! The textual form of IP addresses: dotted quads, and the colon-separated groups
//! of IPv6 with `::` and a trailing dotted quad.

use vstd::prelude::*;

verus! {

/// The pieces of `s` that lie between the occurrences of `sep`: one piece more than
/// `sep` occurs in `s`.
pub open spec fn split(s: Seq<u8>, sep: u8) -> Seq<Seq<u8>>
    decreases s.len(),
{
    if s.len() == 0 {
        seq![Seq::<u8>::empty()]
    } else {
        let before = split(s.drop_last(), sep);
        if s.last() == sep {
            before.push(Seq::<u8>::empty())
        } else {
            before.drop_last().push(before.last().push(s.last()))
        }
    }
}

/// The contents of each vector.
pub open spec fn views(pieces: Seq<Vec<u8>>) -> Seq<Seq<u8>> {
    Seq::new(pieces.len(), |i: int| pieces[i]@)
}

/// A decimal digit.
pub open spec fn is_digit(b: u8) -> bool {
    0x30 <= b <= 0x39
}

/// A hexadecimal digit, in either case.
pub open spec fn is_hex_digit(b: u8) -> bool {
    is_digit(b) || 0x41 <= b <= 0x46 || 0x61 <= b <= 0x66
}

/// The number that the decimal digits `s` write.
pub open spec fn decimal(s: Seq<u8>) -> nat
    decreases s.len(),
{
    if s.len() == 0 {
        0
    } else {
        decimal(s.drop_last()) * 10 + (s.last() - 0x30) as nat
    }
}

/// One to three decimal digits that write a number up to 255, with no zero in
/// front of another digit.
pub open spec fn is_octet(s: Seq<u8>) -> bool {
    &&& 1 <= s.len() <= 3
    &&& forall|i: int| 0 <= i < s.len() ==> is_digit(#[trigger] s[i])
    &&& (s.len() > 1 ==> s[0] != 0x30)
    &&& decimal(s) <= 255
}

/// Four octets with dots between them.
pub open spec fn is_ipv4(s: Seq<u8>) -> bool {
    let pieces = split(s, 0x2e);
    &&& pieces.len() == 4
    &&& forall|i: int| 0 <= i < 4 ==> is_octet(#[trigger] pieces[i])
}

/// One to four hexadecimal digits.
pub open spec fn is_group(s: Seq<u8>) -> bool {
    &&& 1 <= s.len() <= 4
    &&& forall|i: int| 0 <= i < s.len() ==> is_hex_digit(#[trigger] s[i])
}

/// Whether piece `i` may stand where it stands: a group anywhere, a dotted quad at
/// the end only.
pub open spec fn is_piece(pieces: Seq<Seq<u8>>, i: int) -> bool {
    is_group(pieces[i]) || (i == pieces.len() - 1 && is_ipv4(pieces[i]))
}

/// All eight groups written out, the last two possibly as a dotted quad.
pub open spec fn is_full(pieces: Seq<Seq<u8>>) -> bool {
    &&& forall|i: int| 0 <= i < pieces.len() ==> #[trigger] is_piece(pieces, i)
    &&& pieces.len() == (if is_ipv4(pieces.last()) {
        7nat
    } else {
        8nat
    })
}

/// Whether the empty pieces `from..to` are those that one `::` leaves behind, at
/// the start, in the middle or at the end, with at most seven groups around it (a
/// dotted quad counts for two).
pub open spec fn is_elided(pieces: Seq<Seq<u8>>, from: int, to: int) -> bool {
    let n = pieces.len() as int;
    &&& 0 <= from < to <= n
    &&& {
        ||| from == 0 && to == 3 && n == 3
        ||| from == 0 && to == 2 && n > 2
        ||| from > 0 && to == n && from == n - 2
        ||| from > 0 && to < n && to == from + 1
    }
    &&& forall|i: int| from <= i < to ==> (#[trigger] pieces[i]).len() == 0
    &&& forall|i: int| 0 <= i < from ==> is_group(#[trigger] pieces[i])
    &&& forall|i: int| to <= i < n ==> #[trigger] is_piece(pieces, i)
    &&& from + (n - to) + (if to < n && is_ipv4(pieces.last()) {
        1int
    } else {
        0int
    }) <= 7
}

/// Groups of hexadecimal digits with colons between them: eight of them, or fewer
/// with one `::` in place of those left out.
pub open spec fn is_ipv6(s: Seq<u8>) -> bool {
    let pieces = split(s, 0x3a);
    is_full(pieces) || exists|from: int, to: int| is_elided(pieces, from, to)
}

/// Whether the bytes write an IP address of either family.
pub open spec fn is_ip_address(s: Seq<u8>) -> bool {
    is_ipv4(s) || is_ipv6(s)
}

/// Whether the UTF-8 form of a text writes an IP address.
pub open spec fn is_ip_text(text: Seq<char>) -> bool {
    is_ip_address(vstd::utf8::encode_utf8(text))
}

/// Cuts `s` at every `sep`.
pub fn split_at(s: &[u8], sep: u8) -> (pieces: Vec<Vec<u8>>)
    ensures
        views(pieces@) == split(s@, sep),
{
    let mut done: Vec<Vec<u8>> = Vec::new();
    let mut piece: Vec<u8> = Vec::new();
    let mut i: usize = 0;
    while i < s.len()
        invariant
            i <= s.len(),
            views(done@).push(piece@) == split(s@.take(i as int), sep),
        decreases s.len() - i,
    {
        assert(s@.take(i + 1).drop_last() =~= s@.take(i as int));
        if s[i] == sep {
            done.push(piece);
            piece = Vec::new();
        } else {
            piece.push(s[i]);
        }
        i += 1;
    }
    assert(s@.take(s.len() as int) =~= s@);
    done.push(piece);
    done
}

/// Whether `s` is an octet of a dotted quad.
pub fn octet(s: &[u8]) -> (r: bool)
    ensures
        r == is_octet(s@),
{
    if s.len() < 1 || s.len() > 3 {
        return false;
    }
    let mut value: u16 = 0;
    let mut i: usize = 0;
    while i < s.len()
        invariant
            i <= s.len() <= 3,
            forall|k: int| 0 <= k < i ==> is_digit(#[trigger] s@[k]),
            value == decimal(s@.take(i as int)),
            value <= 999,
            i <= 2 ==> value <= 99,
            i <= 1 ==> value <= 9,
            i == 0 ==> value == 0,
        decreases s.len() - i,
    {
        if s[i] < 0x30 || s[i] > 0x39 {
            return false;
        }
        assert(s@.take(i + 1).drop_last() =~= s@.take(i as int));
        value = value * 10 + (s[i] - 0x30) as u16;
        i += 1;
    }
    assert(s@.take(s.len() as int) =~= s@);
    if s.len() > 1 && s[0] == 0x30 {
        return false;
    }
    value <= 255
}

/// Whether `s` is a dotted quad.
pub fn ipv4(s: &[u8]) -> (r: bool)
    ensures
        r == is_ipv4(s@),
{
    let pieces = split_at(s, 0x2e);
    if pieces.len() != 4 {
        return false;
    }
    let mut i: usize = 0;
    while i < 4
        invariant
            i <= 4,
            pieces.len() == 4,
            views(pieces@) == split(s@, 0x2e),
            forall|k: int| 0 <= k < i ==> is_octet(#[trigger] split(s@, 0x2e)[k]),
        decreases 4 - i,
    {
        assert(views(pieces@)[i as int] == pieces@[i as int]@);
        if !octet(pieces[i].as_slice()) {
            return false;
        }
        i += 1;
    }
    true
}

/// Whether `s` is a group of an IPv6 address.
pub fn group(s: &[u8]) -> (r: bool)
    ensures
        r == is_group(s@),
{
    if s.len() < 1 || s.len() > 4 {
        return false;
    }
    let mut i: usize = 0;
    while i < s.len()
        invariant
            i <= s.len(),
            forall|k: int| 0 <= k < i ==> is_hex_digit(#[trigger] s@[k]),
        decreases s.len() - i,
    {
        let b = s[i];
        let hex = (0x30 <= b && b <= 0x39) || (0x41 <= b && b <= 0x46) || (0x61 <= b && b
            <= 0x66);
        if !hex {
            return false;
        }
        i += 1;
    }
    true
}

/// Whether every piece of `from..to` may stand where it stands.
fn pieces_fit(pieces: &Vec<Vec<u8>>, from: usize, to: usize) -> (r: bool)
    requires
        from <= to <= pieces.len(),
    ensures
        r == forall|i: int| from <= i < to ==> #[trigger] is_piece(views(pieces@), i),
{
    let mut i: usize = from;
    while i < to
        invariant
            from <= i <= to <= pieces.len(),
            forall|k: int| from <= k < i ==> #[trigger] is_piece(views(pieces@), k),
        decreases to - i,
    {
        let fits = group(pieces[i].as_slice()) || (i == pieces.len() - 1 && ipv4(
            pieces[i].as_slice(),
        ));
        if !fits {
            assert(!is_piece(views(pieces@), i as int));
            return false;
        }
        i += 1;
    }
    true
}

/// Whether `s` is an IPv6 address.
pub fn ipv6(s: &[u8]) -> (r: bool)
    ensures
        r == is_ipv6(s@),
{
    let pieces = split_at(s, 0x3a);
    let n = pieces.len();
    let ghost parts = views(pieces@);
    assert(n >= 1) by {
        lemma_split_is_not_empty(s@, 0x3a);
    }
    // the first empty piece
    let mut from: usize = 0;
    while from < n && pieces[from].len() > 0
        invariant
            from <= n == pieces.len(),
            parts == views(pieces@),
            forall|i: int| 0 <= i < from ==> (#[trigger] parts[i]).len() > 0,
        decreases n - from,
    {
        from += 1;
    }
    let dotted = ipv4(pieces[n - 1].as_slice());
    if from == n {
        // no piece is empty: nothing was left out
        assert forall|a: int, b: int| !is_elided(parts, a, b) by {
            if is_elided(parts, a, b) {
                assert(parts[a].len() == 0);
            }
        }
        let fit = pieces_fit(&pieces, 0, n);
        return fit && n == (if dotted {
            7
        } else {
            8
        });
    }
    proof {
        lemma_empty_is_no_piece(parts, from as int);
    }
    // the empty pieces that follow it
    let mut to: usize = from + 1;
    while to < n && pieces[to].len() == 0
        invariant
            from < to <= n == pieces.len(),
            parts == views(pieces@),
            forall|i: int| from <= i < to ==> (#[trigger] parts[i]).len() == 0,
        decreases n - to,
    {
        to += 1;
    }
    // any run of empty pieces that is_elided accepts is this one
    assert forall|a: int, b: int| is_elided(parts, a, b) implies a == from && b == to by {
        assert(parts[a].len() == 0);
        if a < from {
            assert(parts[a].len() > 0);
        }
        if from < a {
            assert(is_group(parts[from as int]));
        }
        if b < to {
            assert(is_piece(parts, b));
            lemma_empty_is_no_piece(parts, b);
        }
        if to < b {
            assert(parts[to as int].len() == 0);
        }
    }
    let shape = (from == 0 && to == 3 && n == 3) || (from == 0 && to == 2 && n > 2) || (from > 0
        && to == n && from == n - 2) || (from > 0 && to < n && to == from + 1);
    if !shape {
        return false;
    }
    let head = pieces_fit(&pieces, 0, from);
    let tail = pieces_fit(&pieces, to, n);
    assert(head == forall|i: int| 0 <= i < from ==> is_group(#[trigger] parts[i])) by {
        assert forall|i: int| 0 <= i < from implies (is_group(#[trigger] parts[i]) == is_piece(
            parts,
            i,
        )) by {}
    }
    if !head || !tail {
        return false;
    }
    let groups = from + (n - to) + (if to < n && dotted {
        1
    } else {
        0
    });
    let fits = groups <= 7;
    assert(fits == is_elided(parts, from as int, to as int));
    fits
}

/// Whether `s` writes an IP address of either family.
pub fn ip_address(s: &[u8]) -> (r: bool)
    ensures
        r == is_ip_address(s@),
{
    ipv4(s) || ipv6(s)
}

/// Whether a text writes an IP address.
pub fn ip_text(text: &str) -> (r: bool)
    ensures
        r == is_ip_text(text@),
{
    ip_address(text.as_bytes())
}

/// A split always yields at least one piece.
proof fn lemma_split_is_not_empty(s: Seq<u8>, sep: u8)
    ensures
        split(s, sep).len() >= 1,
    decreases s.len(),
{
    if s.len() > 0 {
        lemma_split_is_not_empty(s.drop_last(), sep);
    }
}

/// An empty piece is neither a group nor a dotted quad.
proof fn lemma_empty_is_no_piece(pieces: Seq<Seq<u8>>, i: int)
    requires
        pieces[i].len() == 0,
    ensures
        !is_group(pieces[i]),
        !is_ipv4(pieces[i]),
        !is_piece(pieces, i),
{
}

} // verus!
