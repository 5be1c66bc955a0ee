//! Byte-level building blocks of the stored formats.
//!
//! Keys and entries are written as CBOR data items.  Every item starts with a
//! *head*: one initial byte that carries the major type in its upper three
//! bits and, in its lower five bits, either the argument itself (below 24) or
//! the width of the big-endian argument that follows (24 to 27 for one, two,
//! four and eight bytes).  This module states that layout as spec functions,
//! implements a writer and a reader against it, and proves that what the
//! writer emits is read back unchanged.
use vstd::prelude::*;

verus! {

/// Major type of a text string.
pub const MAJOR_TEXT: u8 = 3;

/// Initial byte of an array of two items.
pub const ARRAY_OF_TWO: u8 = 0x82;

/// Initial byte of a map of two pairs.
pub const MAP_OF_TWO: u8 = 0xa2;

/// The byte that stands for an absent value.
pub const NULL: u8 = 0xf6;

/// The `width` low-order bytes of `n`, most significant byte first.
pub open spec fn be_bytes(n: nat, width: nat) -> Seq<u8>
    decreases width,
{
    if width == 0 {
        Seq::empty()
    } else {
        be_bytes(n / 256, (width - 1) as nat).push((n % 256) as u8)
    }
}

/// The number that `bytes` spells, most significant byte first.
pub open spec fn be_value(bytes: Seq<u8>) -> nat
    decreases bytes.len(),
{
    if bytes.len() == 0 {
        0
    } else {
        be_value(bytes.drop_last()) * 256 + bytes.last() as nat
    }
}

/// Number of distinct values that `width` bytes can spell: 256 to the power `width`.
pub open spec fn span(width: nat) -> nat
    decreases width,
{
    if width == 0 {
        1
    } else {
        256 * span((width - 1) as nat)
    }
}

/// How many argument bytes follow an initial byte whose low five bits are `info`.
pub open spec fn arg_width(info: int) -> nat {
    if info == 24 {
        1
    } else if info == 25 {
        2
    } else if info == 26 {
        4
    } else if info == 27 {
        8
    } else {
        0
    }
}

/// The shortest head for major type `major` and argument `n`.
pub open spec fn head(major: u8, n: nat) -> Seq<u8> {
    if n < 24 {
        seq![(major * 32 + n) as u8]
    } else if n < 0x100 {
        seq![(major * 32 + 24) as u8] + be_bytes(n, 1)
    } else if n < 0x1_0000 {
        seq![(major * 32 + 25) as u8] + be_bytes(n, 2)
    } else if n < 0x1_0000_0000 {
        seq![(major * 32 + 26) as u8] + be_bytes(n, 4)
    } else {
        seq![(major * 32 + 27) as u8] + be_bytes(n, 8)
    }
}

/// What a reader finds at position `at`: the major type, the argument and the
/// position just behind the head.  Indefinite lengths and the reserved forms
/// are not part of the stored formats and read as `None`.
pub open spec fn head_at(bytes: Seq<u8>, at: int) -> Option<(u8, nat, int)> {
    if at < 0 || at >= bytes.len() {
        None
    } else {
        let first = bytes[at];
        let major = first / 32;
        let info = first % 32;
        if info < 24 {
            Some((major, info as nat, at + 1))
        } else if info <= 27 {
            let end = at + 1 + arg_width(info as int);
            if end > bytes.len() {
                None
            } else {
                Some((major, be_value(bytes.subrange(at + 1, end)), end))
            }
        } else {
            None
        }
    }
}

/// A text string: its head, then its bytes.
pub open spec fn text(content: Seq<u8>) -> Seq<u8> {
    head(MAJOR_TEXT, content.len()) + content
}

/// The text string that starts at `at`, with the position just behind it.
pub open spec fn text_at(bytes: Seq<u8>, at: int) -> Option<(Seq<u8>, int)> {
    match head_at(bytes, at) {
        Some((major, len, start)) => if major == MAJOR_TEXT && start + len <= bytes.len() {
            Some((bytes.subrange(start, start + len), start + len))
        } else {
            None
        },
        None => None,
    }
}

/// `width` bytes spell fewer than `span(width)` values, and spelling then
/// reading a number below that bound gives the number back.
pub proof fn lemma_be_round_trip(n: nat, width: nat)
    requires
        n < span(width),
    ensures
        be_bytes(n, width).len() == width,
        be_value(be_bytes(n, width)) == n,
    decreases width,
{
    if width > 0 {
        let rest = be_bytes(n / 256, (width - 1) as nat);
        lemma_be_round_trip(n / 256, (width - 1) as nat);
        assert(be_bytes(n, width).drop_last() =~= rest);
    }
}

/// The length of spelled bytes is the width asked for, whatever the number.
pub proof fn lemma_be_len(n: nat, width: nat)
    ensures
        be_bytes(n, width).len() == width,
    decreases width,
{
    if width > 0 {
        lemma_be_len(n / 256, (width - 1) as nat);
    }
}

/// A number read from `bytes` is below `span(bytes.len())`.
pub proof fn lemma_be_value_bound(bytes: Seq<u8>)
    ensures
        be_value(bytes) < span(bytes.len()),
    decreases bytes.len(),
{
    if bytes.len() > 0 {
        lemma_be_value_bound(bytes.drop_last());
    }
}

/// The spans of the four argument widths.
pub proof fn lemma_spans()
    ensures
        span(0) == 1,
        span(1) == 0x100,
        span(2) == 0x1_0000,
        span(4) == 0x1_0000_0000,
        span(8) == 0x1_0000_0000_0000_0000,
{
    reveal_with_fuel(span, 9);
}

/// Length of a head: one byte, plus the argument bytes where the argument is 24 or more.
pub proof fn lemma_head_len(major: u8, n: nat)
    ensures
        head(major, n).len() == if n < 24 {
            1nat
        } else if n < 0x100 {
            2nat
        } else if n < 0x1_0000 {
            3nat
        } else if n < 0x1_0000_0000 {
            5nat
        } else {
            9nat
        },
{
    lemma_be_len(n, 1);
    lemma_be_len(n, 2);
    lemma_be_len(n, 4);
    lemma_be_len(n, 8);
}

/// A head written behind `before` and followed by `after` is read back at
/// `before.len()` with its major type and argument.
pub proof fn lemma_head_round_trip(before: Seq<u8>, major: u8, n: nat, after: Seq<u8>)
    requires
        major < 8,
        n < 0x1_0000_0000_0000_0000,
    ensures
        head_at(before + head(major, n) + after, before.len() as int) == Some(
            (major, n, (before.len() + head(major, n).len()) as int),
        ),
{
    let h = head(major, n);
    let all = before + h + after;
    let at = before.len() as int;
    lemma_head_len(major, n);
    lemma_spans();
    assert(all[at] == h[0]);
    if n >= 24 {
        let width: nat = (h.len() - 1) as nat;
        lemma_be_round_trip(n, width);
        assert(all.subrange(at + 1, at + 1 + width as int) =~= be_bytes(n, width));
    }
}

/// A text string written behind `before` and followed by `after` is read back
/// at `before.len()` with its content.
pub proof fn lemma_text_round_trip(before: Seq<u8>, content: Seq<u8>, after: Seq<u8>)
    requires
        content.len() < 0x1_0000_0000_0000_0000,
    ensures
        text_at(before + text(content) + after, before.len() as int) == Some(
            (content, (before.len() + text(content).len()) as int),
        ),
{
    let h = head(MAJOR_TEXT, content.len());
    let all = before + text(content) + after;
    lemma_head_round_trip(before, MAJOR_TEXT, content.len(), content + after);
    assert(all =~= before + h + (content + after));
    let start: int = (before.len() + h.len()) as int;
    assert(all.subrange(start, start + content.len()) =~= content);
}

/// Spans of fewer than eight bytes leave room for one more byte in 64 bits.
proof fn lemma_span_below_eight(width: nat)
    requires
        width < 8,
    ensures
        span(width) <= 0x100_0000_0000_0000,
{
    reveal_with_fuel(span, 9);
}

/// Appends `bytes` to `out`.
pub fn append(out: &mut Vec<u8>, bytes: &[u8])
    ensures
        final(out)@ == old(out)@ + bytes@,
{
    let mut i: usize = 0;
    while i < bytes.len()
        invariant
            i <= bytes.len(),
            out@ == old(out)@ + bytes@.subrange(0, i as int),
        decreases bytes.len() - i,
    {
        out.push(bytes[i]);
        i += 1;
        assert(bytes@.subrange(0, i as int) =~= bytes@.subrange(0, i - 1).push(bytes@[i - 1]));
    }
    assert(bytes@.subrange(0, i as int) =~= bytes@);
}

/// Whether `a` and `b` hold the same bytes.
pub fn equal(a: &[u8], b: &[u8]) -> (r: bool)
    ensures
        r == (a@ == b@),
{
    if a.len() != b.len() {
        return false;
    }
    let mut i: usize = 0;
    while i < a.len()
        invariant
            a.len() == b.len(),
            i <= a.len(),
            a@.subrange(0, i as int) == b@.subrange(0, i as int),
        decreases a.len() - i,
    {
        if a[i] != b[i] {
            return false;
        }
        i += 1;
        assert(a@.subrange(0, i as int) =~= a@.subrange(0, i - 1).push(a@[i - 1]));
        assert(b@.subrange(0, i as int) =~= b@.subrange(0, i - 1).push(b@[i - 1]));
    }
    assert(a@.subrange(0, i as int) =~= a@);
    assert(b@.subrange(0, i as int) =~= b@);
    true
}

/// Appends the `width` low-order bytes of `n` to `out`, most significant byte first.
fn push_be(out: &mut Vec<u8>, n: u64, width: u8)
    ensures
        final(out)@ == old(out)@ + be_bytes(n as nat, width as nat),
    decreases width,
{
    if width > 0 {
        push_be(out, n / 256, width - 1);
        out.push((n % 256) as u8);
        assert(out@ =~= old(out)@ + be_bytes(n as nat, width as nat));
    } else {
        assert(out@ =~= old(out)@ + be_bytes(n as nat, width as nat));
    }
}

/// Appends the shortest head for `major` and `n` to `out`.
pub fn write_head(out: &mut Vec<u8>, major: u8, n: u64)
    requires
        major < 8,
    ensures
        final(out)@ == old(out)@ + head(major, n as nat),
{
    let base: u8 = major * 32;
    if n < 24 {
        out.push(base + n as u8);
        assert(out@ =~= old(out)@ + head(major, n as nat));
    } else {
        let (info, width): (u8, u8) = if n < 0x100 {
            (24, 1)
        } else if n < 0x1_0000 {
            (25, 2)
        } else if n < 0x1_0000_0000 {
            (26, 4)
        } else {
            (27, 8)
        };
        out.push(base + info);
        push_be(out, n, width);
        assert(out@ =~= old(out)@ + head(major, n as nat));
    }
}

/// Appends `content` as a text string to `out`.
pub fn write_text(out: &mut Vec<u8>, content: &[u8])
    ensures
        final(out)@ == old(out)@ + text(content@),
{
    write_head(out, MAJOR_TEXT, content.len() as u64);
    append(out, content);
    assert(out@ =~= old(out)@ + text(content@));
}

/// Reads `width` bytes from `start` as one number, most significant byte first.
fn read_be(bytes: &[u8], start: usize, width: usize) -> (v: u64)
    requires
        width <= 8,
        start + width <= bytes.len(),
    ensures
        v == be_value(bytes@.subrange(start as int, start + width)),
{
    let mut v: u64 = 0;
    let mut i: usize = 0;
    while i < width
        invariant
            i <= width <= 8,
            start + width <= bytes.len(),
            v == be_value(bytes@.subrange(start as int, start + i)),
        decreases width - i,
    {
        proof {
            lemma_be_value_bound(bytes@.subrange(start as int, start + i));
            lemma_span_below_eight(i as nat);
        }
        v = v * 256 + bytes[start + i] as u64;
        i += 1;
        assert(bytes@.subrange(start as int, start + i).drop_last() =~= bytes@.subrange(
            start as int,
            start + i - 1,
        ));
    }
    v
}

/// Reads the head at `at`: its major type, its argument and the position behind it.
pub fn read_head(bytes: &[u8], at: usize) -> (r: Option<(u8, u64, usize)>)
    ensures
        match r {
            Some((major, n, next)) => head_at(bytes@, at as int) == Some(
                (major, n as nat, next as int),
            ) && at < next <= bytes.len(),
            None => head_at(bytes@, at as int) is None,
        },
{
    if at >= bytes.len() {
        return None;
    }
    let first: u8 = bytes[at];
    let major: u8 = first / 32;
    let info: u8 = first % 32;
    if info < 24 {
        Some((major, info as u64, at + 1))
    } else if info <= 27 {
        let width: usize = if info == 24 {
            1
        } else if info == 25 {
            2
        } else if info == 26 {
            4
        } else {
            8
        };
        if width > bytes.len() - (at + 1) {
            None
        } else {
            let n: u64 = read_be(bytes, at + 1, width);
            Some((major, n, at + 1 + width))
        }
    } else {
        None
    }
}

/// Reads the text string at `at`: where its content starts and where it ends.
pub fn read_text(bytes: &[u8], at: usize) -> (r: Option<(usize, usize)>)
    ensures
        match r {
            Some((start, end)) => at < start <= end <= bytes.len() && text_at(bytes@, at as int)
                == Some((bytes@.subrange(start as int, end as int), end as int)),
            None => text_at(bytes@, at as int) is None,
        },
{
    match read_head(bytes, at) {
        Some((major, len, start)) => {
            if major == MAJOR_TEXT && len <= (bytes.len() - start) as u64 {
                Some((start, start + len as usize))
            } else {
                None
            }
        },
        None => None,
    }
}

} // verus!
