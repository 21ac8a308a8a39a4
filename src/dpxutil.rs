//! Small helpers of the PDF driver.

use vstd::prelude::*;

verus! {

/// The value of a hexadecimal digit, or -1 for any other byte.
pub open spec fn hex_value(c: u8) -> int {
    if 48 <= c <= 57 {
        c - 48
    } else if 65 <= c <= 70 {
        c - 65 + 10
    } else if 97 <= c <= 102 {
        c - 97 + 10
    } else {
        -1
    }
}

/// The byte that a C `char` holds.
pub open spec fn byte_of(c: i8) -> u8 {
    if c < 0 {
        (c + 256) as u8
    } else {
        c as u8
    }
}

/// The value of the hexadecimal digit `c`, or -1.
pub fn xtoi(c: i8) -> (r: i32)
    ensures
        r == hex_value(byte_of(c)),
{
    let c: u8 = if c < 0 {
        (c as i16 + 256) as u8
    } else {
        c as u8
    };
    if c >= 48 && c <= 57 {
        return (c - 48) as i32;
    }
    if c >= 65 && c <= 70 {
        return (c - 65 + 10) as i32;
    }
    if c >= 97 && c <= 102 {
        return (c - 97 + 10) as i32;
    }
    -1
}

/// A byte that separates tokens: space, tab, form feed, carriage return,
/// line feed or NUL.
pub open spec fn is_white(c: u8) -> bool {
    c == 32 || c == 9 || c == 12 || c == 13 || c == 10 || c == 0
}

/// The number of separator bytes at the start of `s`.
pub fn skip_white_spaces(s: &[u8]) -> (r: usize)
    ensures
        r <= s@.len(),
        forall|k: int| 0 <= k < r ==> is_white(#[trigger] s@[k]),
        r < s@.len() ==> !is_white(s@[r as int]),
{
    let mut i: usize = 0;
    while i < s.len()
        invariant
            i <= s@.len(),
            forall|k: int| 0 <= k < i ==> is_white(#[trigger] s@[k]),
        decreases s@.len() - i,
    {
        let c = s[i];
        if !(c == 32 || c == 9 || c == 12 || c == 13 || c == 10 || c == 0) {
            return i;
        }
        i = i + 1;
    }
    i
}

/// A byte that can start an identifier: a letter or an underscore.
pub open spec fn is_ident_start(c: u8) -> bool {
    c == 95 || (97 <= c <= 122) || (65 <= c <= 90)
}

/// A byte that can continue an identifier: one that can start it, or a digit.
pub open spec fn is_ident_char(c: u8) -> bool {
    is_ident_start(c) || (48 <= c <= 57)
}

fn ident_char(c: u8) -> (r: bool)
    ensures
        r == is_ident_char(c),
{
    c == 95 || (97 <= c && c <= 122) || (65 <= c && c <= 90) || (48 <= c && c <= 57)
}

/// The length of the identifier at the start of `s`: `None` where `s` does
/// not start with a letter or an underscore, else the longest run of
/// letters, digits and underscores.
pub fn parse_c_ident(s: &[u8]) -> (r: Option<usize>)
    ensures
        (s@.len() == 0 || !is_ident_start(s@[0])) ==> r is None,
        (s@.len() > 0 && is_ident_start(s@[0])) ==> r is Some,
        r matches Some(n) ==> 0 < n <= s@.len(),
        r matches Some(n) ==> forall|k: int| 0 <= k < n ==> is_ident_char(#[trigger] s@[k]),
        r matches Some(n) ==> (n < s@.len() ==> !is_ident_char(s@[n as int])),
{
    if s.len() == 0 {
        return None;
    }
    let c = s[0];
    if !(c == 95 || (97 <= c && c <= 122) || (65 <= c && c <= 90)) {
        return None;
    }
    let mut n: usize = 1;
    while n < s.len() && ident_char(s[n])
        invariant
            0 < n <= s@.len(),
            forall|k: int| 0 <= k < n ==> is_ident_char(#[trigger] s@[k]),
        decreases s@.len() - n,
    {
        n = n + 1;
    }
    Some(n)
}

/// The scan of a decimal number from position `i`, in state `st` (0 in the
/// mantissa, 1 after its point, 2 after the exponent mark, 3 after the
/// exponent's sign) with `n` digits seen: where it stops, and the digits seen.
pub open spec fn scan_decimal(p: Seq<u8>, i: int, st: int, n: int) -> (int, int)
    decreases p.len() - i,
{
    if i < 0 || i >= p.len() {
        (i, n)
    } else {
        let c = p[i];
        if c == 43 || c == 45 {
            if st != 2 {
                (i, n)
            } else {
                scan_decimal(p, i + 1, 3, n)
            }
        } else if c == 46 {
            if st > 0 {
                (i, n)
            } else {
                scan_decimal(p, i + 1, 1, n)
            }
        } else if 48 <= c <= 57 {
            scan_decimal(p, i + 1, st, n + 1)
        } else if c == 69 || c == 101 {
            if n == 0 || st == 2 {
                (i, n)
            } else {
                scan_decimal(p, i + 1, 2, n)
            }
        } else {
            (i, n)
        }
    }
}

/// Where the scan of a decimal number starts: after an optional sign.
pub open spec fn decimal_start(p: Seq<u8>) -> int {
    if p.len() > 0 && (p[0] == 43 || p[0] == 45) {
        1
    } else {
        0
    }
}

/// Scans a decimal number such as `1.`, `.01`, `001` or `-001E-001` at the
/// start of `p`: the position where the scan stopped, and whether it saw a
/// digit, in which case `p[..end]` is the number's text.
pub fn parse_float_decimal(p: &[u8]) -> (r: (usize, bool))
    ensures
        p@.len() == 0 ==> r == (0usize, false),
        p@.len() > 0 ==> ({
            let (end, n) = scan_decimal(p@, decimal_start(p@), 0, 0);
            r.0 == end && r.1 == (n != 0)
        }),
{
    if p.len() == 0 {
        return (0, false);
    }
    let mut i: usize = if p[0] == 43 || p[0] == 45 {
        1
    } else {
        0
    };
    let mut st: u8 = 0;
    let mut n: usize = 0;
    while i < p.len()
        invariant
            i <= p@.len(),
            n <= i,
            st <= 3,
            scan_decimal(p@, decimal_start(p@), 0, 0) == scan_decimal(p@, i as int, st as int, n as int),
        ensures
            scan_decimal(p@, decimal_start(p@), 0, 0) == (i as int, n as int),
        decreases p@.len() - i,
    {
        let c = p[i];
        if c == 43 || c == 45 {
            if st != 2 {
                break;
            }
            st = 3;
        } else if c == 46 {
            if st > 0 {
                break;
            }
            st = 1;
        } else if 48 <= c && c <= 57 {
            n = n + 1;
        } else if c == 69 || c == 101 {
            if n == 0 || st == 2 {
                break;
            }
            st = 2;
        } else {
            break;
        }
        i = i + 1;
    }
    (i, n != 0)
}

/// An octal digit.
pub open spec fn is_octal(c: u8) -> bool {
    48 <= c <= 55
}

/// A hexadecimal digit.
pub open spec fn is_hex(c: u8) -> bool {
    hex_value(c) >= 0
}

/// The escape sequence whose first byte, after the backslash, is at `i`:
/// the byte it stands for (none for a line continuation or an unknown
/// escape) and the position after it. Up to three octal digits, or up to two
/// hexadecimal digits after `x`, give a byte value modulo 256.
pub open spec fn escape_at(p: Seq<u8>, i: int) -> (Option<u8>, int) {
    let c = p[i];
    if c == 97 {
        (Some(7u8), i + 1)
    } else if c == 98 {
        (Some(8u8), i + 1)
    } else if c == 102 {
        (Some(12u8), i + 1)
    } else if c == 110 {
        (Some(10u8), i + 1)
    } else if c == 114 {
        (Some(13u8), i + 1)
    } else if c == 116 {
        (Some(9u8), i + 1)
    } else if c == 118 {
        (Some(11u8), i + 1)
    } else if c == 92 || c == 63 || c == 39 || c == 34 {
        (Some(c), i + 1)
    } else if c == 10 {
        (None, i + 1)
    } else if c == 13 {
        (None, if i + 1 < p.len() && p[i + 1] == 10 { i + 2 } else { i + 1 })
    } else if is_octal(c) {
        let two = i + 1 < p.len() && is_octal(p[i + 1]);
        let three = two && i + 2 < p.len() && is_octal(p[i + 2]);
        if three {
            (Some((((c - 48) * 64 + (p[i + 1] - 48) * 8 + (p[i + 2] - 48)) % 256) as u8), i + 3)
        } else if two {
            (Some(((c - 48) * 8 + (p[i + 1] - 48)) as u8), i + 2)
        } else {
            (Some((c - 48) as u8), i + 1)
        }
    } else if c == 120 {
        let one = i + 1 < p.len() && is_hex(p[i + 1]);
        let two = one && i + 2 < p.len() && is_hex(p[i + 2]);
        if two {
            (Some((hex_value(p[i + 1]) * 16 + hex_value(p[i + 2])) as u8), i + 3)
        } else if one {
            (Some(hex_value(p[i + 1]) as u8), i + 2)
        } else {
            (Some(0u8), i + 1)
        }
    } else {
        (None, i + 1)
    }
}

/// `b` as a sequence of zero or one bytes.
pub open spec fn opt_bytes(b: Option<u8>) -> Seq<u8> {
    match b {
        Some(b) => seq![b],
        None => Seq::empty(),
    }
}

/// `front` put before the bytes of a literal, where there are any.
pub open spec fn prefixed(front: Seq<u8>, r: (Option<Seq<u8>>, int)) -> (Option<Seq<u8>>, int) {
    match r.0 {
        Some(t) => (Some(front + t), r.1),
        None => r,
    }
}

/// The body of a string literal from `i` on: its bytes and the position
/// after the closing quote, or `None` and where the scan stopped where a
/// line ends or the input ends first.
pub open spec fn literal_from(p: Seq<u8>, i: int) -> (Option<Seq<u8>>, int)
    decreases p.len() - i,
{
    if i < 0 || i >= p.len() {
        (None, i)
    } else if p[i] == 34 {
        (Some(Seq::empty()), i + 1)
    } else if p[i] == 10 || p[i] == 13 {
        (None, i)
    } else if p[i] == 92 {
        if i + 1 >= p.len() {
            (None, i + 1)
        } else {
            let (b, j) = escape_at(p, i + 1);
            prefixed(opt_bytes(b), literal_from(p, j))
        }
    } else {
        prefixed(seq![p[i]], literal_from(p, i + 1))
    }
}

fn octal(c: u8) -> (r: bool)
    ensures
        r == is_octal(c),
{
    48 <= c && c <= 55
}

fn hex(c: u8) -> (r: i32)
    ensures
        r == hex_value(c),
{
    if c >= 48 && c <= 57 {
        (c - 48) as i32
    } else if c >= 65 && c <= 70 {
        (c - 65 + 10) as i32
    } else if c >= 97 && c <= 102 {
        (c - 97 + 10) as i32
    } else {
        -1
    }
}

fn read_c_escchar(p: &[u8], i: usize) -> (r: (Option<u8>, usize))
    requires
        i < p@.len(),
    ensures
        (r.0, r.1 as int) == escape_at(p@, i as int),
        i < r.1 <= p@.len(),
{
    let c = p[i];
    if c == 97 {
        (Some(7), i + 1)
    } else if c == 98 {
        (Some(8), i + 1)
    } else if c == 102 {
        (Some(12), i + 1)
    } else if c == 110 {
        (Some(10), i + 1)
    } else if c == 114 {
        (Some(13), i + 1)
    } else if c == 116 {
        (Some(9), i + 1)
    } else if c == 118 {
        (Some(11), i + 1)
    } else if c == 92 || c == 63 || c == 39 || c == 34 {
        (Some(c), i + 1)
    } else if c == 10 {
        (None, i + 1)
    } else if c == 13 {
        if i + 1 < p.len() && p[i + 1] == 10 {
            (None, i + 2)
        } else {
            (None, i + 1)
        }
    } else if octal(c) {
        let two = i + 1 < p.len() && octal(p[i + 1]);
        let three = two && i + 2 < p.len() && octal(p[i + 2]);
        if three {
            let v: u32 = (c - 48) as u32 * 64 + (p[i + 1] - 48) as u32 * 8 + (p[i + 2] - 48) as u32;
            (Some((v % 256) as u8), i + 3)
        } else if two {
            (Some((c - 48) * 8 + (p[i + 1] - 48)), i + 2)
        } else {
            (Some(c - 48), i + 1)
        }
    } else if c == 120 {
        let one = i + 1 < p.len() && hex(p[i + 1]) >= 0;
        let two = one && i + 2 < p.len() && hex(p[i + 2]) >= 0;
        if two {
            (Some((hex(p[i + 1]) * 16 + hex(p[i + 2])) as u8), i + 3)
        } else if one {
            (Some(hex(p[i + 1]) as u8), i + 2)
        } else {
            (Some(0), i + 1)
        }
    } else {
        (None, i + 1)
    }
}

/// Reads a C string literal at the start of `p`: where `p` starts with a
/// double quote, the bytes that the literal stands for, escapes decoded, and
/// the position after its closing quote; `None` and the position where the
/// scan stopped where a line or the input ends before the closing quote.
/// `(None, 0)` where `p` does not start with a double quote.
pub fn parse_c_string(p: &[u8]) -> (r: (Option<Vec<u8>>, usize))
    ensures
        (p@.len() == 0 || p@[0] != 34) ==> r.0 is None && r.1 == 0,
        p@.len() > 0 && p@[0] == 34 ==> ({
            let (body, end) = literal_from(p@, 1);
            &&& r.1 == end
            &&& match body {
                Some(b) => r.0 matches Some(v) && v@ == b,
                None => r.0 is None,
            }
        }),
{
    if p.len() == 0 || p[0] != 34 {
        return (None, 0);
    }
    let mut out: Vec<u8> = Vec::new();
    let mut i: usize = 1;
    assert(out@ =~= Seq::<u8>::empty());
    assert(prefixed(Seq::empty(), literal_from(p@, 1)) == literal_from(p@, 1)) by {
        if literal_from(p@, 1).0 is Some {
            assert(Seq::<u8>::empty() + literal_from(p@, 1).0->Some_0 =~= literal_from(p@, 1).0->Some_0);
        }
    }
    while i < p.len()
        invariant
            1 <= i <= p@.len(),
            p@[0] == 34,
            literal_from(p@, 1) == prefixed(out@, literal_from(p@, i as int)),
        decreases p@.len() - i,
    {
        let c = p[i];
        if c == 34 {
            proof {
                assert(out@ + Seq::<u8>::empty() =~= out@);
            }
            return (Some(out), i + 1);
        }
        if c == 10 || c == 13 {
            return (None, i);
        }
        let ghost before = out@;
        if c == 92 {
            if i + 1 >= p.len() {
                return (None, i + 1);
            }
            let (b, j) = read_c_escchar(p, i + 1);
            match b {
                Some(b) => out.push(b),
                None => {},
            }
            proof {
                assert(out@ =~= before + opt_bytes(b));
                let rest = literal_from(p@, j as int);
                if rest.0 is Some {
                    assert(before + (opt_bytes(b) + rest.0->Some_0) =~= out@ + rest.0->Some_0);
                }
            }
            i = j;
        } else {
            out.push(c);
            proof {
                let rest = literal_from(p@, i + 1);
                if rest.0 is Some {
                    assert(before + (seq![c] + rest.0->Some_0) =~= out@ + rest.0->Some_0);
                }
            }
            i = i + 1;
        }
    }
    (None, i)
}

} // verus!
