//! RGBA colors and their parsing from hexadecimal codes.
use vstd::prelude::*;
use vstd::std_specs::convert::FromSpecImpl;

verus! {

/// Applies a function to each of four items.
pub fn map<T, U, F: Fn(&T) -> U>(tt: &[T; 4], f: F) -> (r: [U; 4])
    requires
        forall|i: int| 0 <= i < 4 ==> f.requires((&tt@[i],)),
    ensures
        forall|i: int| 0 <= i < 4 ==> f.ensures((&tt@[i],), #[trigger] r@[i]),
{
    [f(&tt[0]), f(&tt[1]), f(&tt[2]), f(&tt[3])]
}

/// Applies a function to each of four pairs taken from two arrays.
pub fn bimap<T, U, V, F: Fn(&T, &U) -> V>(tt: &[T; 4], uu: &[U; 4], f: F) -> (r: [V; 4])
    requires
        forall|i: int| 0 <= i < 4 ==> f.requires((&tt@[i], &uu@[i])),
    ensures
        forall|i: int| 0 <= i < 4 ==> f.ensures((&tt@[i], &uu@[i]), #[trigger] r@[i]),
{
    [f(&tt[0], &uu[0]), f(&tt[1], &uu[1]), f(&tt[2], &uu[2]), f(&tt[3], &uu[3])]
}

/// Applies a function to each of the four consecutive pairs of eight items.
fn pairmap<T, U, F: Fn(&T, &T) -> U>(tt: &[T; 8], f: F) -> (r: [U; 4])
    requires
        f.requires((&tt@[0], &tt@[1])),
        f.requires((&tt@[2], &tt@[3])),
        f.requires((&tt@[4], &tt@[5])),
        f.requires((&tt@[6], &tt@[7])),
    ensures
        f.ensures((&tt@[0], &tt@[1]), r@[0]),
        f.ensures((&tt@[2], &tt@[3]), r@[1]),
        f.ensures((&tt@[4], &tt@[5]), r@[2]),
        f.ensures((&tt@[6], &tt@[7]), r@[3]),
{
    [f(&tt[0], &tt[1]), f(&tt[2], &tt[3]), f(&tt[4], &tt[5]), f(&tt[6], &tt[7])]
}

/// Whether a character is a hexadecimal digit.
pub open spec fn is_hex_char(c: char) -> bool {
    ('0' <= c <= '9') || ('a' <= c <= 'f') || ('A' <= c <= 'F')
}

/// The value of a hexadecimal digit byte, if it is one.
pub open spec fn spec_hex_val(b: u8) -> Option<u8> {
    if 48 <= b <= 57 {
        Some((b - 48) as u8)
    } else if 97 <= b <= 102 {
        Some((b - 97 + 10) as u8)
    } else if 65 <= b <= 70 {
        Some((b - 65 + 10) as u8)
    } else {
        None
    }
}

/// A hexadecimal digit character as its byte; anything else is an error.
fn hex_char(c: char) -> (r: Result<u8, &'static str>)
    ensures
        is_hex_char(c) ==> r == Ok::<u8, &'static str>(c as u8),
        !is_hex_char(c) ==> r == Err::<u8, &'static str>(
            "Non-hex char passed off as hex char (0-9,a-z,A-Z).",
        ),
{
    if ('0' <= c && c <= '9') || ('a' <= c && c <= 'f') || ('A' <= c && c <= 'F') {
        Ok(c as u8)
    } else {
        Err("Non-hex char passed off as hex char (0-9,a-z,A-Z).")
    }
}

/// The value of a hexadecimal digit byte; anything else is an error.
fn hex_val(b: &u8) -> (r: Result<u8, &'static str>)
    ensures
        spec_hex_val(*b) matches Some(v) ==> r == Ok::<u8, &'static str>(v),
        spec_hex_val(*b) is None ==> r == Err::<u8, &'static str>(
            "Non-hex byte passed off as hex byte.",
        ),
{
    if 48u8 <= *b && *b <= 57u8 {
        Ok(*b - 48u8)
    } else if 97u8 <= *b && *b <= 102u8 {
        Ok(*b - 97u8 + 10)
    } else if 65u8 <= *b && *b <= 70u8 {
        Ok(*b - 65u8 + 10)
    } else {
        Err("Non-hex byte passed off as hex byte.")
    }
}

/// Where the code bytes start in a hex code: at 0 if it starts with `#`, else at 1.
pub open spec fn hex_start(bb: Seq<u8>) -> int {
    if bb[0] == 35 {
        0
    } else {
        1
    }
}

/// Whether the code byte of channel `k` lies inside the input.
pub open spec fn reads_channel(bb: Seq<u8>, k: int) -> bool {
    hex_start(bb) + 2 * k < bb.len()
}

/// Whether every code byte inside the input is a hexadecimal digit.
pub open spec fn hex_bb_digits_ok(bb: Seq<u8>) -> bool {
    forall|k: int|
        0 <= k < 4 && reads_channel(bb, k) ==> (#[trigger] spec_hex_val(bb[hex_start(bb) + 2 * k])) is Some
}

/// Channel `k` of a parsed hex code: the digit of its code byte, repeated in
/// both nibbles; a channel past the end of the input is 48 (red, green, blue)
/// or 198 (alpha).
pub open spec fn hex_bb_channel(bb: Seq<u8>, k: int) -> u8 {
    if reads_channel(bb, k) {
        (17 * spec_hex_val(bb[hex_start(bb) + 2 * k])->0) as u8
    } else if k < 3 {
        48
    } else {
        198
    }
}

/// The result of parsing a hex code.
pub open spec fn spec_hex_bb(bb: Seq<u8>) -> Result<Seq<u8>, &'static str> {
    if bb.len() == 0 {
        Err("No input.")
    } else if !hex_bb_digits_ok(bb) {
        Err("Non-hex byte passed off as hex byte.")
    } else {
        Ok(seq![hex_bb_channel(bb, 0), hex_bb_channel(bb, 1), hex_bb_channel(bb, 2), hex_bb_channel(bb, 3)])
    }
}

/// How many characters of a string a hex code is read from: at most nine, and
/// at most the string's length in bytes.
pub open spec fn hex_str_taken(s: &str) -> int {
    let n = if s.len() < 9 { s.len() as int } else { 9 };
    if s@.len() < n {
        s@.len() as int
    } else {
        n
    }
}

/// The nine code bytes a string becomes: its taken characters as bytes, then zeros.
pub open spec fn hex_str_code(s: &str) -> Seq<u8> {
    Seq::new(9, |i: int| if i < hex_str_taken(s) { s@[i] as u8 } else { 0u8 })
}

/// The result of parsing a string as a hex code.
pub open spec fn spec_hex_str(s: &str) -> Result<Seq<u8>, &'static str> {
    if exists|i: int| 0 <= i < hex_str_taken(s) && !is_hex_char(#[trigger] s@[i]) {
        Err("Non-hex char passed off as hex char (0-9,a-z,A-Z).")
    } else {
        spec_hex_bb(hex_str_code(s))
    }
}

proof fn lemma_nibbles(v: u8)
    by (bit_vector)
    requires
        v <= 15,
    ensures
        (v << 4u8) + v == 17 * v,
        (48u8 << 4u8) + 48u8 == 48,
        (102u8 << 4u8) + 102u8 == 198,
{
}

/// A color: red, green, blue and alpha channels.
#[derive(Debug, Copy, Clone, PartialEq, Eq, Hash)]
pub struct Color(pub [u8; 4]);

/// The channel a pair of code bytes makes: the first shifted into the high
/// nibble (bits above the byte are lost), plus the second.
pub open spec fn spec_channel(hi: u8, lo: u8) -> int {
    (hi << 4u8) + lo
}

impl Color {
    pub const MIN: u8 = 0;

    pub const MAX: u8 = 255;

    /// The channels, red first.
    pub open spec fn channels(&self) -> Seq<u8> {
        self.0@
    }

    /// A color from its four channels.
    pub fn new(r: u8, g: u8, b: u8, a: u8) -> (c: Self)
        ensures
            c.channels() == seq![r, g, b, a],
    {
        Self([r, g, b, a])
    }

    /// A color from eight code bytes, two per channel.
    pub fn hex(col: [u8; 8]) -> (c: Self)
        requires
            spec_channel(col@[0], col@[1]) <= 255,
            spec_channel(col@[2], col@[3]) <= 255,
            spec_channel(col@[4], col@[5]) <= 255,
            spec_channel(col@[6], col@[7]) <= 255,
        ensures
            c.channels() == seq![
                spec_channel(col@[0], col@[1]) as u8,
                spec_channel(col@[2], col@[3]) as u8,
                spec_channel(col@[4], col@[5]) as u8,
                spec_channel(col@[6], col@[7]) as u8,
            ],
    {
        let f = |chan0: &u8, chan1: &u8| -> (r: u8)
            requires
                spec_channel(*chan0, *chan1) <= 255,
            ensures
                r == spec_channel(*chan0, *chan1),
            { (*chan0 << 4u8) + *chan1 };
        let cc = pairmap(&col, f);
        assert(cc@ =~= seq![
            spec_channel(col@[0], col@[1]) as u8,
            spec_channel(col@[2], col@[3]) as u8,
            spec_channel(col@[4], col@[5]) as u8,
            spec_channel(col@[6], col@[7]) as u8,
        ]);
        Self(cc)
    }

    /// Channel 0 of the color.
    pub fn r(&self) -> (c: &u8)
        ensures
            *c == self.channels()[0],
    {
        &self.0[0]
    }

    /// Channel 1 of the color.
    pub fn g(&self) -> (c: &u8)
        ensures
            *c == self.channels()[1],
    {
        &self.0[1]
    }

    /// Channel 2 of the color.
    pub fn b(&self) -> (c: &u8)
        ensures
            *c == self.channels()[2],
    {
        &self.0[2]
    }

    /// Channel 3 of the color.
    pub fn a(&self) -> (c: &u8)
        ensures
            *c == self.channels()[3],
    {
        &self.0[3]
    }

    /// Channel 0 of the color, to change in place.
    pub fn r_mut(&mut self) -> (c: &mut u8)
        ensures
            *c == old(self).channels()[0],
            final(self).channels() == old(self).channels().update(0, *final(c)),
    {
        &mut self.0[0]
    }

    /// Channel 1 of the color, to change in place.
    pub fn g_mut(&mut self) -> (c: &mut u8)
        ensures
            *c == old(self).channels()[1],
            final(self).channels() == old(self).channels().update(1, *final(c)),
    {
        &mut self.0[1]
    }

    /// Channel 2 of the color, to change in place.
    pub fn b_mut(&mut self) -> (c: &mut u8)
        ensures
            *c == old(self).channels()[2],
            final(self).channels() == old(self).channels().update(2, *final(c)),
    {
        &mut self.0[2]
    }

    /// Channel 3 of the color, to change in place.
    pub fn a_mut(&mut self) -> (c: &mut u8)
        ensures
            *c == old(self).channels()[3],
            final(self).channels() == old(self).channels().update(3, *final(c)),
    {
        &mut self.0[3]
    }

    /// Parses a hex code of up to four channels, one code byte per channel; a
    /// leading byte other than `#` is skipped. Channels past the end of the
    /// input keep their defaults.
    pub fn hex_bb(col_bb: &[u8]) -> (r: Result<Self, &'static str>)
        ensures
            r matches Ok(c) ==> spec_hex_bb(col_bb@) == Ok::<Seq<u8>, &'static str>(c.channels()),
            r matches Err(e) ==> spec_hex_bb(col_bb@) == Err::<Seq<u8>, &'static str>(e),
    {
        let mut hex_code: [u8; 8] = [48, 48, 48, 48, 48, 48, 102, 102];
        if col_bb.len() == 0 {
            return Err("No input.");
        }
        let start: usize = if col_bb[0] == 35u8 {
            0
        } else {
            1
        };
        let end: usize = if col_bb.len() < 8 + start {
            col_bb.len()
        } else {
            8 + start
        };
        let ghost bb = col_bb@;
        let mut idx: usize = start;
        let mut m: usize = 0;
        while idx < end
            invariant
                bb == col_bb@,
                bb.len() > 0,
                start == hex_start(bb),
                end <= bb.len(),
                end == (if bb.len() < 8 + start { bb.len() as int } else { 8 + start }),
                idx == start + 2 * m,
                m <= 4,
                forall|k: int| 0 <= k < m ==> reads_channel(bb, k),
                forall|k: int|
                    0 <= k < m ==> (#[trigger] spec_hex_val(bb[hex_start(bb) + 2 * k])) is Some
                        && hex_code@[2 * k] == spec_hex_val(bb[hex_start(bb) + 2 * k])->0
                        && hex_code@[2 * k + 1] == spec_hex_val(bb[hex_start(bb) + 2 * k])->0,
                forall|j: int| 2 * m <= j < 8 ==> hex_code@[j] == (if j < 6 { 48u8 } else { 102u8 }),
                idx >= end ==> forall|k: int| m <= k < 4 ==> !reads_channel(bb, k),
            decreases 4 - m,
        {
            let b = &col_bb[idx];
            match hex_val(b) {
                Ok(v) => {
                    hex_code[idx - start] = v;
                    hex_code[idx - start + 1] = v;
                },
                Err(e) => {
                    assert(!hex_bb_digits_ok(bb));
                    return Err(e);
                },
            }
            idx = idx + 2;
            m = m + 1;
        }
        assert(hex_bb_digits_ok(bb));
        proof {
            assert forall|k: int| 0 <= k < 4 implies spec_channel(hex_code@[2 * k], hex_code@[2 * k + 1])
                == hex_bb_channel(bb, k) by {
                if k < m {
                    lemma_nibbles(hex_code@[2 * k]);
                } else {
                    lemma_nibbles(0);
                }
            }
            assert(spec_channel(hex_code@[0], hex_code@[1]) == hex_bb_channel(bb, 0));
            assert(spec_channel(hex_code@[2], hex_code@[3]) == hex_bb_channel(bb, 1));
            assert(spec_channel(hex_code@[4], hex_code@[5]) == hex_bb_channel(bb, 2));
            assert(spec_channel(hex_code@[6], hex_code@[7]) == hex_bb_channel(bb, 3));
        }
        Ok(Self::hex(hex_code))
    }

    /// Parses a string as a hex code: its first characters (at most nine) must
    /// all be hexadecimal digits; they become code bytes, followed by zeros.
    pub fn hex_str(col_str: &str) -> (r: Result<Self, &'static str>)
        ensures
            r matches Ok(c) ==> spec_hex_str(col_str) == Ok::<Seq<u8>, &'static str>(c.channels()),
            r matches Err(e) ==> spec_hex_str(col_str) == Err::<Seq<u8>, &'static str>(e),
    {
        let mut col_bb: [u8; 9] = [0; 9];
        let bytes = col_str.len();
        let n: usize = if bytes < 9 {
            bytes
        } else {
            9
        };
        let nchars = col_str.unicode_len();
        let k: usize = if nchars < n {
            nchars
        } else {
            n
        };
        let mut i: usize = 0;
        while i < k
            invariant
                k == hex_str_taken(col_str),
                k <= 9,
                k <= col_str@.len(),
                i <= k,
                forall|j: int| 0 <= j < i ==> is_hex_char(#[trigger] col_str@[j]),
                forall|j: int| 0 <= j < i ==> col_bb@[j] == col_str@[j] as u8,
                forall|j: int| i <= j < 9 ==> col_bb@[j] == 0,
            decreases k - i,
        {
            let c = col_str.get_char(i);
            match hex_char(c) {
                Ok(b) => {
                    col_bb[i] = b;
                },
                Err(e) => {
                    return Err(e);
                },
            }
            i = i + 1;
        }
        assert(col_bb@ =~= hex_str_code(col_str));
        Self::hex_bb(col_bb.as_slice())
    }
}

impl From<(u8, u8, u8, u8)> for Color {
    fn from(tup: (u8, u8, u8, u8)) -> (c: Self) {
        Self([tup.0, tup.1, tup.2, tup.3])
    }
}

impl FromSpecImpl<(u8, u8, u8, u8)> for Color {
    open spec fn obeys_from_spec() -> bool {
        true
    }

    open spec fn from_spec(tup: (u8, u8, u8, u8)) -> Color {
        Color([tup.0, tup.1, tup.2, tup.3])
    }
}

/// A code that starts with `#` is always refused: the `#` itself is taken as
/// the first code byte, and it is no hexadecimal digit.
pub proof fn law_leading_hash_rejected(bb: Seq<u8>)
    requires
        bb.len() > 0,
        bb[0] == 35,
    ensures
        spec_hex_bb(bb) == Err::<Seq<u8>, &'static str>("Non-hex byte passed off as hex byte."),
{
    assert(reads_channel(bb, 0));
    assert(spec_hex_val(bb[hex_start(bb) + 2 * 0]) is None);
}

/// A string of eight or more characters whose first nine taken characters are
/// hexadecimal digits parses to the channels of its 2nd, 4th, 6th and 8th
/// characters, each digit repeated in both nibbles.
pub proof fn law_hex_str_channels(s: &str)
    requires
        hex_str_taken(s) >= 8,
        forall|i: int| 0 <= i < hex_str_taken(s) ==> is_hex_char(#[trigger] s@[i]),
    ensures
        spec_hex_str(s) == Ok::<Seq<u8>, &'static str>(
            seq![
                (17 * spec_hex_val(s@[1] as u8)->0) as u8,
                (17 * spec_hex_val(s@[3] as u8)->0) as u8,
                (17 * spec_hex_val(s@[5] as u8)->0) as u8,
                (17 * spec_hex_val(s@[7] as u8)->0) as u8,
            ],
        ),
{
    let code = hex_str_code(s);
    assert(code[0] == s@[0] as u8);
    assert(code[0] != 35u8);
    assert forall|k: int| 0 <= k < 4 implies reads_channel(code, k) && (#[trigger] spec_hex_val(
        code[hex_start(code) + 2 * k],
    )) is Some by {
        assert(code[1 + 2 * k] == s@[1 + 2 * k] as u8);
        assert(is_hex_char(s@[1 + 2 * k]));
    }
    assert(hex_bb_digits_ok(code));
}

} // verus!
