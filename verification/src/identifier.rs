//! Object identifiers.

use vstd::prelude::*;

use crate::error::ErrorKind;

verus! {

/// True when `c` is a printable ASCII character (`0x20..=0x7E`).
pub open spec fn is_identifier_char(c: char) -> bool {
    0x20 <= (c as u32) && (c as u32) <= 0x7e
}

/// An identifier is at most 100 characters long, all of them printable ASCII.
pub open spec fn spec_is_valid_identifier(s: Seq<char>) -> bool {
    s.len() <= 100 && forall|i: int| 0 <= i < s.len() ==> is_identifier_char(#[trigger] s[i])
}

/// Returns whether `s` is a valid identifier.
pub fn is_valid_identifier(s: &str) -> (res: bool)
    ensures
        res == spec_is_valid_identifier(s@),
{
    let n = s.unicode_len();
    if n > 100 {
        return false;
    }
    let mut i: usize = 0;
    while i < n
        invariant
            n == s@.len(),
            0 <= i <= n,
            forall|j: int| 0 <= j < i ==> is_identifier_char(#[trigger] s@[j]),
        decreases n - i,
    {
        let v = s.get_char(i) as u32;
        if v < 0x20 || v > 0x7e {
            return false;
        }
        i += 1;
    }
    true
}


/// Draws 64 bits from the standard library's randomly seeded hasher.
#[verifier::external_body]
fn random_u64() -> u64 {
    std::hash::Hasher::finish(&std::hash::BuildHasher::build_hasher(
        &std::collections::hash_map::RandomState::new(),
    ))
}

/// The lowercase hexadecimal digit for `d`.
pub open spec fn hex_digit(d: u64) -> char {
    if d < 10 {
        ((d + 0x30) as u32) as char
    } else {
        ((d - 10 + 0x61) as u32) as char
    }
}

/// True when `s` has the shape of a version 4 UUID in lowercase hexadecimal
/// (`xxxxxxxx-xxxx-4xxx-yxxx-xxxxxxxxxxxx`, where `y` is one of `8`, `9`, `a`, `b`).
pub open spec fn is_uuid_v4_text(s: Seq<char>) -> bool {
    &&& s.len() == 36
    &&& forall|i: int|
        0 <= i < 36 ==> (if i == 8 || i == 13 || i == 18 || i == 23 {
            s[i] == '-'
        } else {
            ('0' <= #[trigger] s[i] <= '9') || ('a' <= s[i] <= 'f')
        })
    &&& s[14] == '4'
    &&& (s[19] == '8' || s[19] == '9' || s[19] == 'a' || s[19] == 'b')
}

/// The `k`-th hexadecimal digit (counting from the least significant) of `v`.
pub open spec fn nibble(v: u64, k: int) -> u64 {
    (v >> ((4 * k) as u64)) & 15
}

/// Appends the `count` lowest hexadecimal digits of `v`, most significant first.
fn push_hex(out: &mut String, v: u64, count: u64)
    requires
        1 <= count <= 16,
    ensures
        final(out)@.len() == old(out)@.len() + count,
        final(out)@.subrange(0, old(out)@.len() as int) == old(out)@,
        forall|i: int|
            old(out)@.len() <= i < final(out)@.len() ==> #[trigger] final(out)@[i] == hex_digit(
                nibble(v, count - 1 - (i - old(out)@.len())),
            ),
{
    let digits = "0123456789abcdef";
    proof {
        reveal_strlit("0123456789abcdef");
        assert(digits@.len() == 16);
        assert forall|j: int| 0 <= j < 16 implies #[trigger] digits@[j] == hex_digit(j as u64) by {
            reveal_strlit("0123456789abcdef");
        }
    }
    let ghost start = out@.len();
    let mut k: u64 = count;
    while k > 0
        invariant
            0 <= k <= count <= 16,
            digits@.len() == 16,
            forall|j: int| 0 <= j < 16 ==> #[trigger] digits@[j] == hex_digit(j as u64),
            out@.len() == start + (count - k),
            out@.subrange(0, start as int) == old(out)@,
            start == old(out)@.len(),
            forall|i: int|
                start <= i < out@.len() ==> #[trigger] out@[i] == hex_digit(
                    nibble(v, count - 1 - (i - start)),
                ),
        decreases k,
    {
        k -= 1;
        let shift = (4 * k) as u64;
        let dv: u64 = (v >> shift) & 15;
        assert(dv < 16) by (bit_vector)
            requires
                dv == (v >> shift) & 15,
        ;
        let d = dv as usize;
        let piece = digits.substring_char(d, d + 1);
        let ghost before = out@;
        out.append(piece);
        assert(piece@.len() == 1);
        assert(out@ =~= before.push(piece@[0]));
        assert(out@.subrange(0, start as int) =~= before.subrange(0, start as int));
        assert(nibble(v, k as int) == dv);
    }
}

proof fn lemma_prefix_all(a: Seq<char>, b: Seq<char>)
    requires
        a.len() <= b.len(),
        b.subrange(0, a.len() as int) == a || b == a.push('-'),
    ensures
        forall|i: int| 0 <= i < a.len() ==> #[trigger] b[i] == a[i],
{
    assert forall|i: int| 0 <= i < a.len() implies #[trigger] b[i] == a[i] by {
        if b.subrange(0, a.len() as int) == a {
            assert(b.subrange(0, a.len() as int)[i] == b[i]);
        }
    }
}

proof fn lemma_hex_digit_range()
    ensures
        forall|d: u64| d < 16 ==> ('0' <= #[trigger] hex_digit(d) <= '9') || ('a' <= hex_digit(d) <= 'f'),
{
}

proof fn lemma_nibble_range()
    ensures
        forall|v: u64, k: int| 0 <= k < 16 ==> #[trigger] nibble(v, k) < 16,
{
    assert forall|v: u64, k: int| 0 <= k < 16 implies #[trigger] nibble(v, k) < 16 by {
        let sh = (4 * k) as u64;
        assert((v >> sh) & 15 < 16) by (bit_vector);
    }
}

/// Appends a single dash.
fn push_dash(out: &mut String)
    ensures
        final(out)@ == old(out)@.push('-'),
{
    let dash = "-";
    proof {
        reveal_strlit("-");
    }
    out.append(dash);
    assert(final(out)@ =~= old(out)@.push('-'));
}

/// A [UFO Object Identifier][identifier].
///
/// Identifiers are optional attributes of several objects in the UFO.
/// They are strings of at most 100 characters, all of them in the printable
/// ASCII range `0x20..=0x7E`.
///
/// [identifier]: https://unifiedfontobject.org/versions/ufo3/conventions/#identifiers
#[derive(Debug, PartialEq, Eq, Hash)]
pub struct Identifier {
    inner: String,
}

impl View for Identifier {
    type V = Seq<char>;

    closed spec fn view(&self) -> Seq<char> {
        self.inner@
    }
}

impl Clone for Identifier {
    fn clone(&self) -> (res: Self)
        ensures
            res@ == self@,
    {
        proof {
            use_type_invariant(self);
        }
        Identifier { inner: self.inner.clone() }
    }
}

impl Identifier {
    #[verifier::type_invariant]
    closed spec fn inv(self) -> bool {
        spec_is_valid_identifier(self.inner@)
    }

    /// Creates a new [`Identifier`] from a string, if it is valid.
    pub fn new(string: &str) -> (res: Result<Self, ErrorKind>)
        ensures
            spec_is_valid_identifier(string@) <==> res is Ok,
            res matches Ok(id) ==> id@ == string@,
            res matches Err(e) ==> e == ErrorKind::BadIdentifier,
    {
        if is_valid_identifier(string) {
            Ok(Identifier { inner: string.to_owned() })
        } else {
            Err(ErrorKind::BadIdentifier)
        }
    }

    /// Creates a new `Identifier` from a string known to be valid.
    pub fn new_raw(string: &str) -> (res: Self)
        requires
            spec_is_valid_identifier(string@),
        ensures
            res@ == string@,
    {
        Identifier { inner: string.to_owned() }
    }

    /// Returns a new random identifier in the shape of a version 4 UUID.
    pub fn from_uuidv4() -> (res: Self)
        ensures
            is_uuid_v4_text(res@),
    {
        let hi = random_u64();
        let lo = random_u64();
        let a: u64 = hi >> 32;
        let b: u64 = (hi >> 16) & 0xffff;
        let c: u64 = 0x4000 | (hi & 0x0fff);
        let d: u64 = 0x8000 | ((lo >> 48) & 0x3fff);
        let e: u64 = lo & 0xffff_ffff_ffff;
        let mut s = String::new();
        push_hex(&mut s, a, 8);
        let ghost g1 = s@;
        push_dash(&mut s);
        let ghost g2 = s@;
        push_hex(&mut s, b, 4);
        let ghost g3 = s@;
        push_dash(&mut s);
        let ghost g4 = s@;
        push_hex(&mut s, c, 4);
        let ghost g5 = s@;
        push_dash(&mut s);
        let ghost g6 = s@;
        push_hex(&mut s, d, 4);
        let ghost g7 = s@;
        push_dash(&mut s);
        let ghost g8 = s@;
        push_hex(&mut s, e, 12);
        proof {
            let f = s@;
            lemma_prefix_all(g8, f);
            lemma_prefix_all(g7, g8);
            lemma_prefix_all(g6, g7);
            lemma_prefix_all(g5, g6);
            lemma_prefix_all(g4, g5);
            lemma_prefix_all(g3, g4);
            lemma_prefix_all(g2, g3);
            lemma_prefix_all(g1, g2);
            assert(nibble(c, 3) == 4) by (bit_vector)
                requires
                    c == 0x4000 | (hi & 0x0fff),
            ;
            assert(8 <= nibble(d, 3) <= 11) by (bit_vector)
                requires
                    d == 0x8000 | ((lo >> 48) & 0x3fff),
            ;
            assert forall|i: int| 0 <= i < 36 implies (if i == 8 || i == 13 || i == 18 || i == 23 {
                f[i] == '-'
            } else {
                ('0' <= #[trigger] f[i] <= '9') || ('a' <= f[i] <= 'f')
            }) by {
                lemma_hex_digit_range();
                lemma_nibble_range();
            }
        }
        Identifier { inner: s }
    }

    /// Returns the raw identifier, as a `&str`.
    pub fn as_str(&self) -> (res: &str)
        ensures
            res@ == self@,
            spec_is_valid_identifier(res@),
    {
        proof {
            use_type_invariant(self);
        }
        self.inner.as_str()
    }
}

} // verus!
