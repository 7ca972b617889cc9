use vstd::prelude::*;

verus! {

/// Largest number of symbols a name can hold.
pub const MAX_NAME_LEN: usize = 20;

/// Width in bytes of a packed name.
pub const PACKED_LEN: usize = 16;

/// The symbol at position `k` of the 64-symbol alphabet:
/// `-`, the digits, the upper-case letters, `_`, the lower-case letters.
pub open spec fn symbol(k: int) -> char {
    if k == 0 {
        '-'
    } else if k <= 10 {
        (k - 1 + 48) as char
    } else if k <= 36 {
        (k - 11 + 65) as char
    } else if k == 37 {
        '_'
    } else {
        (k - 38 + 97) as char
    }
}

/// Whether `c` belongs to the alphabet.
pub open spec fn in_alphabet(c: char) -> bool {
    c == '-' || ('0' <= c && c <= '9') || ('A' <= c && c <= 'Z') || c == '_' || ('a' <= c && c <= 'z')
}

/// The position of `c` in the alphabet (meaningful when `in_alphabet(c)`).
pub open spec fn symbol_code(c: char) -> int {
    if c == '-' {
        0
    } else if '0' <= c && c <= '9' {
        c as int - 48 + 1
    } else if 'A' <= c && c <= 'Z' {
        c as int - 65 + 11
    } else if c == '_' {
        37
    } else {
        c as int - 97 + 38
    }
}

pub proof fn lemma_symbol_code_inverse(k: int)
    requires
        0 <= k < 64,
    ensures
        in_alphabet(symbol(k)),
        symbol_code(symbol(k)) == k,
{
}

pub proof fn lemma_symbol_inverse(c: char)
    requires
        in_alphabet(c),
    ensures
        0 <= symbol_code(c) < 64,
        symbol(symbol_code(c)) == c,
{
}


/// Whether `s` is a representable name: 1 to 20 symbols, all from the alphabet.
pub open spec fn valid_name(s: Seq<char>) -> bool {
    1 <= s.len() <= MAX_NAME_LEN && forall|i: int| 0 <= i < s.len() ==> in_alphabet(#[trigger] s[i])
}

/// The alphabet positions of the symbols of `s`.
pub open spec fn codes_of(s: Seq<char>) -> Seq<u8> {
    s.map_values(|c: char| symbol_code(c) as u8)
}

/// The symbols at the alphabet positions `codes`.
pub open spec fn chars_of(codes: Seq<u8>) -> Seq<char> {
    codes.map_values(|k: u8| symbol(k as int))
}

/// Whether there are 1 to 20 codes, each an alphabet position.
pub open spec fn valid_codes(codes: Seq<u8>) -> bool {
    1 <= codes.len() <= MAX_NAME_LEN && forall|i: int| 0 <= i < codes.len() ==> #[trigger] codes[i] < 64
}

/// The code at `i`, or 0 past the end.
pub open spec fn code_or_zero(codes: Seq<u8>, i: int) -> int {
    if 0 <= i < codes.len() {
        codes[i] as int
    } else {
        0
    }
}

/// Byte `j` of the packed form of `codes`. Byte 15 holds the length. Each group `g`
/// of four 6-bit codes fills the three bytes `14 - 3g`, `13 - 3g`, `12 - 3g`: the
/// first code goes to the low bits of byte `14 - 3g`, the second is split 2 / 4 bits
/// across it and the byte before, the third 4 / 2 bits, and the fourth fills the
/// high six bits of byte `12 - 3g`.
pub open spec fn packed_byte(codes: Seq<u8>, j: int) -> u8 {
    if j == 15 {
        codes.len() as u8
    } else {
        let g = (14 - j) / 3;
        let c0 = code_or_zero(codes, 4 * g);
        let c1 = code_or_zero(codes, 4 * g + 1);
        let c2 = code_or_zero(codes, 4 * g + 2);
        let c3 = code_or_zero(codes, 4 * g + 3);
        if (14 - j) % 3 == 0 {
            (c0 + (c1 % 4) * 64) as u8
        } else if (14 - j) % 3 == 1 {
            (c1 / 4 + (c2 % 16) * 16) as u8
        } else {
            (c2 / 16 + c3 * 4) as u8
        }
    }
}

/// The 16-byte packed form of a sequence of codes.
pub open spec fn pack(codes: Seq<u8>) -> Seq<u8> {
    Seq::new(16, |j: int| packed_byte(codes, j))
}

/// Code `i` read back from packed bytes `b`.
pub open spec fn unpacked_code(b: Seq<u8>, i: int) -> u8 {
    let g = i / 4;
    let hi = b[14 - 3 * g] as int;
    let mid = b[13 - 3 * g] as int;
    let lo = b[12 - 3 * g] as int;
    if i % 4 == 0 {
        (hi % 64) as u8
    } else if i % 4 == 1 {
        (hi / 64 + (mid % 16) * 4) as u8
    } else if i % 4 == 2 {
        (mid / 16 + (lo % 4) * 16) as u8
    } else {
        (lo / 4) as u8
    }
}

/// The codes held by packed bytes `b`, whose last byte gives their number.
pub open spec fn unpack(b: Seq<u8>) -> Seq<u8> {
    Seq::new(b[15] as nat, |i: int| unpacked_code(b, i))
}

/// Why a text is not a name.
#[derive(Clone, Copy, Debug, PartialEq, Eq, Structural)]
pub enum ParseError {
    /// No symbol at all.
    Empty,
    /// More than 20 symbols.
    TooLong,
    /// A symbol outside the alphabet.
    InvalidSymbol,
}

/// The big-endian value of a byte sequence.
pub open spec fn be_value(b: Seq<u8>) -> nat
    decreases b.len(),
{
    if b.len() == 0 {
        0
    } else {
        (be_value(b.drop_last()) * 256 + b.last()) as nat
    }
}

/// `256` to the power `n`.
pub open spec fn pow256(n: nat) -> nat
    decreases n,
{
    if n == 0 {
        1
    } else {
        256 * pow256((n - 1) as nat)
    }
}

/// The sort key of a name: the big-endian value of its packed form.
pub open spec fn name_key(s: Seq<char>) -> u128 {
    be_value(pack(codes_of(s))) as u128
}

proof fn lemma_pow256_16()
    ensures
        pow256(16) == 0x1_0000_0000_0000_0000_0000_0000_0000_0000,
{
    reveal_with_fuel(pow256, 17);
}

/// The big-endian value of 16 bytes.
pub fn be_u128(b: &[u8; 16]) -> (r: u128)
    ensures
        r as nat == be_value(b@),
{
    let mut acc: u128 = 0;
    let mut i: usize = 0;
    proof {
        lemma_pow256_16();
    }
    while i < 16
        invariant
            i <= 16,
            acc as nat == be_value(b@.subrange(0, i as int)),
            be_value(b@.subrange(0, i as int)) < pow256(i as nat),
            pow256(16) == 0x1_0000_0000_0000_0000_0000_0000_0000_0000,
        decreases 16 - i,
    {
        proof {
            assert(b@.subrange(0, i + 1).drop_last() =~= b@.subrange(0, i as int));
            assert(pow256((i + 1) as nat) == 256 * pow256(i as nat));
            lemma_pow256_mono((i + 1) as nat, 16);
        }
        acc = acc * 256 + b[i] as u128;
        i = i + 1;
    }
    assert(b@.subrange(0, 16) =~= b@);
    acc
}

proof fn lemma_pow256_mono(i: nat, j: nat)
    requires
        i <= j,
    ensures
        pow256(i) <= pow256(j),
    decreases j,
{
    if i < j {
        lemma_pow256_mono(i, (j - 1) as nat);
    }
}

/// The position in the alphabet of the symbol `c`, if it has one.
fn code_of_char(c: char) -> (r: Option<u8>)
    ensures
        r.is_some() == in_alphabet(c),
        r.is_some() ==> r.unwrap() as int == symbol_code(c) && r.unwrap() < 64,
{
    let v = c as u32;
    if v == 45 {
        Some(0)
    } else if 48 <= v && v <= 57 {
        Some((v - 48 + 1) as u8)
    } else if 65 <= v && v <= 90 {
        Some((v - 65 + 11) as u8)
    } else if v == 95 {
        Some(37)
    } else if 97 <= v && v <= 122 {
        Some((v - 97 + 38) as u8)
    } else {
        None
    }
}

/// A name of 1 to 20 symbols of the alphabet, held as alphabet positions;
/// positions past `len` are zero.
#[derive(Clone, Copy, Debug, PartialEq, Eq)]
pub struct Username {
    len: u8,
    content: [u8; MAX_NAME_LEN],
}

impl View for Username {
    type V = Seq<char>;

    closed spec fn view(&self) -> Seq<char> {
        chars_of(self.codes())
    }
}

impl Username {
    #[verifier::type_invariant]
    spec fn inv(self) -> bool {
        &&& 1 <= self.len <= MAX_NAME_LEN
        &&& forall|i: int| 0 <= i < self.len ==> #[trigger] self.content@[i] < 64
        &&& forall|i: int| self.len <= i < MAX_NAME_LEN ==> #[trigger] self.content@[i] == 0
    }

    /// The alphabet positions of the name's symbols.
    pub closed spec fn codes(self) -> Seq<u8> {
        self.content@.subrange(0, self.len as int)
    }

    /// Every name is valid, and its codes are those of its text.
    proof fn lemma_valid(self)
        requires
            self.inv(),
        ensures
            valid_name(self@),
            codes_of(self@) == self.codes(),
    {
        lemma_chars_codes(self.codes());
    }

    /// Parses a name: `Empty` for no symbol, `TooLong` past 20 symbols, else
    /// `InvalidSymbol` if a symbol is outside the alphabet.
    pub fn from_str(s: &str) -> (r: Result<Username, ParseError>)
        ensures
            r.is_ok() <==> valid_name(s@),
            r.is_ok() ==> r.unwrap()@ == s@,
            r == Err::<Username, ParseError>(ParseError::TooLong) <==> s@.len() > MAX_NAME_LEN,
            r == Err::<Username, ParseError>(ParseError::Empty) <==> s@.len() == 0,
            r == Err::<Username, ParseError>(ParseError::InvalidSymbol) <==> (1 <= s@.len()
                <= MAX_NAME_LEN && !valid_name(s@)),
    {
        let n = s.unicode_len();
        if n == 0 {
            return Err(ParseError::Empty);
        }
        if n > MAX_NAME_LEN {
            return Err(ParseError::TooLong);
        }
        let mut content: [u8; MAX_NAME_LEN] = [0u8; MAX_NAME_LEN];
        let mut i: usize = 0;
        while i < n
            invariant
                n == s@.len(),
                1 <= n <= MAX_NAME_LEN,
                i <= n,
                content@.subrange(0, i as int) =~= codes_of(s@.subrange(0, i as int)),
                forall|k: int| 0 <= k < i ==> in_alphabet(#[trigger] s@[k]),
                forall|k: int| 0 <= k < i ==> #[trigger] content@[k] < 64,
                forall|k: int| i <= k < MAX_NAME_LEN ==> #[trigger] content@[k] == 0,
            decreases n - i,
        {
            let c = s.get_char(i);
            match code_of_char(c) {
                Some(k) => {
                    let ghost prev = content@;
                    content[i] = k;
                    assert(content@ =~= prev.update(i as int, k));
                    assert(prev.subrange(0, i as int) =~= codes_of(s@.subrange(0, i as int)));
                    assert forall|j: int| 0 <= j <= i implies #[trigger] content@[j] == symbol_code(
                        s@[j],
                    ) as u8 by {
                        if j < i {
                            assert(prev.subrange(0, i as int)[j] == codes_of(
                                s@.subrange(0, i as int),
                            )[j]);
                        }
                    }
                    assert(content@.subrange(0, i + 1) =~= codes_of(s@.subrange(0, i + 1)));
                },
                None => {
                    return Err(ParseError::InvalidSymbol);
                },
            }
            i = i + 1;
        }
        assert(s@.subrange(0, n as int) =~= s@);
        proof {
            lemma_codes_chars(s@);
        }
        Ok(Username { len: n as u8, content })
    }

    /// The name as text.
    pub fn to_string(&self) -> (r: String)
        ensures
            r@ == self@,
    {
        proof {
            use_type_invariant(self);
        }
        let n = self.len as usize;
        let alphabet: &str = "-0123456789ABCDEFGHIJKLMNOPQRSTUVWXYZ_abcdefghijklmnopqrstuvwxyz";
        proof {
            reveal_strlit("-0123456789ABCDEFGHIJKLMNOPQRSTUVWXYZ_abcdefghijklmnopqrstuvwxyz");
            assert forall|k: int| 0 <= k < 64 implies #[trigger] alphabet@[k] == symbol(k) by {
                if k == 0 {
                } else if k <= 10 {
                } else if k <= 36 {
                } else if k == 37 {
                } else {
                }
            }
        }
        let mut r = String::new();
        let mut i: usize = 0;
        while i < n
            invariant
                n == self.len,
                self.inv(),
                alphabet@.len() == 64,
                forall|k: int| 0 <= k < 64 ==> #[trigger] alphabet@[k] == symbol(k),
                i <= n,
                r@ =~= chars_of(self.content@.subrange(0, i as int)),
            decreases n - i,
        {
            let k = self.content[i] as usize;
            let sym = alphabet.substring_char(k, k + 1);
            r.append(sym);
            i = i + 1;
        }
        r
    }

    /// Builds a name from alphabet positions: the first `len` entries of `content`.
    pub fn from_raw(len: u8, content: [u8; MAX_NAME_LEN]) -> (r: Username)
        requires
            1 <= len <= MAX_NAME_LEN,
            forall|i: int| 0 <= i < len ==> #[trigger] content@[i] < 64,
        ensures
            r.codes() == content@.subrange(0, len as int),
            r@ == chars_of(content@.subrange(0, len as int)),
    {
        let mut c = content;
        let mut i: usize = len as usize;
        while i < MAX_NAME_LEN
            invariant
                len <= i <= MAX_NAME_LEN,
                forall|k: int| 0 <= k < len ==> #[trigger] c@[k] == content@[k],
                forall|k: int| len <= k < i ==> #[trigger] c@[k] == 0,
            decreases MAX_NAME_LEN - i,
        {
            c[i] = 0;
            i = i + 1;
        }
        assert(c@.subrange(0, len as int) =~= content@.subrange(0, len as int));
        Username { len, content: c }
    }

    /// Packs the name into its fixed 16-byte form.
    pub fn encode(&self) -> (r: [u8; 16])
        ensures
            r@ == pack(codes_of(self@)),
    {
        proof {
            use_type_invariant(self);
            self.lemma_valid();
        }
        let mut r: [u8; 16] = [0u8; 16];
        let n = self.len as usize;
        let mut g: usize = 0;
        while g < 5
            invariant
                0 <= g <= 5,
                n == self.codes().len(),
                self.inv(),
                forall|j: int| 15 - 3 * g <= j < 15 ==> r@[j] == packed_byte(self.codes(), j),
            decreases 5 - g,
        {
            let c0: u8 = if 4 * g < n { self.content[4 * g] } else { 0 };
            let c1: u8 = if 4 * g + 1 < n { self.content[4 * g + 1] } else { 0 };
            let c2: u8 = if 4 * g + 2 < n { self.content[4 * g + 2] } else { 0 };
            let c3: u8 = if 4 * g + 3 < n { self.content[4 * g + 3] } else { 0 };
            r[14 - 3 * g] = c0 + (c1 % 4) * 64;
            r[13 - 3 * g] = c1 / 4 + (c2 % 16) * 16;
            r[12 - 3 * g] = c2 / 16 + c3 * 4;
            assert forall|j: int| 15 - 3 * (g + 1) <= j < 15 implies r@[j] == packed_byte(self.codes(), j) by {
                if j >= 15 - 3 * g {
                } else {
                    assert((14 - j) / 3 == g);
                }
            }
            g = g + 1;
        }
        r[15] = n as u8;
        assert(r@ =~= pack(self.codes()));
        r
    }

    /// The name's key in an ordered index: the big-endian value of its packed form.
    pub fn key(&self) -> (r: u128)
        ensures
            r == name_key(self@),
    {
        let b = self.encode();
        be_u128(&b)
    }

    /// Reads a name back from its packed form.
    pub fn decode(b: &[u8; 16]) -> (r: Username)
        requires
            1 <= b@[15] <= MAX_NAME_LEN,
        ensures
            r@ == chars_of(unpack(b@)),
            r.codes() == unpack(b@),
    {
        let n = b[15] as usize;
        let mut content: [u8; MAX_NAME_LEN] = [0u8; MAX_NAME_LEN];
        let mut i: usize = 0;
        while i < n
            invariant
                n == b@[15],
                1 <= n <= MAX_NAME_LEN,
                i <= n,
                content@.subrange(0, i as int) =~= Seq::new(i as nat, |k: int| unpacked_code(b@, k)),
                forall|k: int| 0 <= k < i ==> #[trigger] content@[k] < 64,
                forall|k: int| i <= k < MAX_NAME_LEN ==> #[trigger] content@[k] == 0,
            decreases n - i,
        {
            let g = i / 4;
            let hi = b[14 - 3 * g];
            let mid = b[13 - 3 * g];
            let lo = b[12 - 3 * g];
            let c: u8 = if i % 4 == 0 {
                hi % 64
            } else if i % 4 == 1 {
                hi / 64 + (mid % 16) * 4
            } else if i % 4 == 2 {
                mid / 16 + (lo % 4) * 16
            } else {
                lo / 4
            };
            let ghost prev = content@;
            content[i] = c;
            assert(content@ =~= prev.update(i as int, c));
            assert(prev.subrange(0, i as int) =~= Seq::new(i as nat, |k: int| unpacked_code(b@, k)));
            assert forall|j: int| 0 <= j <= i implies #[trigger] content@[j] == unpacked_code(b@, j) by {
                if j < i {
                    assert(prev.subrange(0, i as int)[j] == unpacked_code(b@, j));
                }
            }
            assert(content@.subrange(0, i + 1) =~= Seq::new((i + 1) as nat, |k: int| unpacked_code(b@, k)));
            i = i + 1;
        }
        assert(content@.subrange(0, n as int) =~= unpack(b@));
        Username { len: n as u8, content }
    }
}

proof fn lemma_chars_codes(codes: Seq<u8>)
    requires
        valid_codes(codes),
    ensures
        valid_name(chars_of(codes)),
        codes_of(chars_of(codes)) == codes,
{
    assert forall|i: int| 0 <= i < codes.len() implies in_alphabet(#[trigger] chars_of(codes)[i])
        && symbol_code(chars_of(codes)[i]) as u8 == codes[i] by {
        lemma_symbol_code_inverse(codes[i] as int);
    }
    assert(codes_of(chars_of(codes)) =~= codes);
}

proof fn lemma_codes_chars(s: Seq<char>)
    requires
        valid_name(s),
    ensures
        valid_codes(codes_of(s)),
        chars_of(codes_of(s)) == s,
{
    assert forall|i: int| 0 <= i < s.len() implies #[trigger] codes_of(s)[i] < 64 && symbol(
        codes_of(s)[i] as int,
    ) == s[i] by {
        lemma_symbol_inverse(s[i]);
    }
    assert(chars_of(codes_of(s)) =~= s);
}

proof fn lemma_group(c0: int, c1: int, c2: int, c3: int)
    requires
        0 <= c0 < 64,
        0 <= c1 < 64,
        0 <= c2 < 64,
        0 <= c3 < 64,
    ensures
        ({
            let hi = c0 + (c1 % 4) * 64;
            let mid = c1 / 4 + (c2 % 16) * 16;
            let lo = c2 / 16 + c3 * 4;
            &&& 0 <= hi < 256
            &&& 0 <= mid < 256
            &&& 0 <= lo < 256
            &&& hi % 64 == c0
            &&& hi / 64 + (mid % 16) * 4 == c1
            &&& mid / 16 + (lo % 4) * 16 == c2
            &&& lo / 4 == c3
        }),
{
}

/// Unpacking the packed form of valid codes gives the codes back.
pub proof fn lemma_unpack_pack(codes: Seq<u8>)
    requires
        valid_codes(codes),
    ensures
        unpack(pack(codes)) == codes,
{
    let b = pack(codes);
    assert forall|i: int| 0 <= i < codes.len() implies #[trigger] unpacked_code(b, i) == codes[i] by {
        let g = i / 4;
        assert(0 <= g < 5);
        assert((14 - (14 - 3 * g)) / 3 == g && (14 - (14 - 3 * g)) % 3 == 0);
        assert((14 - (13 - 3 * g)) / 3 == g && (14 - (13 - 3 * g)) % 3 == 1);
        assert((14 - (12 - 3 * g)) / 3 == g && (14 - (12 - 3 * g)) % 3 == 2);
        let c0 = code_or_zero(codes, 4 * g);
        let c1 = code_or_zero(codes, 4 * g + 1);
        let c2 = code_or_zero(codes, 4 * g + 2);
        let c3 = code_or_zero(codes, 4 * g + 3);
        lemma_group(c0, c1, c2, c3);
        assert(b[14 - 3 * g] as int == c0 + (c1 % 4) * 64);
        assert(b[13 - 3 * g] as int == c1 / 4 + (c2 % 16) * 16);
        assert(b[12 - 3 * g] as int == c2 / 16 + c3 * 4);
        assert(i == 4 * g || i == 4 * g + 1 || i == 4 * g + 2 || i == 4 * g + 3);
    }
    assert(unpack(b) =~= codes);
}

/// The sum over positions `j >= i` of `code j * 64^(j - i)`, codes past the end
/// counting as zero: the value of the codes read as base-64 digits, least
/// significant first.
pub open spec fn digits_value(codes: Seq<u8>, i: nat) -> int
    decreases MAX_NAME_LEN - i,
{
    if i >= MAX_NAME_LEN {
        0
    } else {
        code_or_zero(codes, i as int) + 64 * digits_value(codes, i + 1)
    }
}

proof fn lemma_be_step(b: Seq<u8>, m: int)
    requires
        3 <= m <= b.len(),
    ensures
        be_value(b.subrange(0, m)) == be_value(b.subrange(0, m - 3)) * 16777216 + b[m - 3] as int
            * 65536 + b[m - 2] as int * 256 + b[m - 1] as int,
{
    assert(b.subrange(0, m).drop_last() =~= b.subrange(0, m - 1));
    assert(b.subrange(0, m - 1).drop_last() =~= b.subrange(0, m - 2));
    assert(b.subrange(0, m - 2).drop_last() =~= b.subrange(0, m - 3));
    let x = be_value(b.subrange(0, m - 3)) as int;
    let y = be_value(b.subrange(0, m - 2)) as int;
    let z = be_value(b.subrange(0, m - 1)) as int;
    assert(y == x * 256 + b[m - 3] as int);
    assert(z == y * 256 + b[m - 2] as int);
    assert(be_value(b.subrange(0, m)) == z * 256 + b[m - 1] as int);
    assert(z * 256 == x * 16777216 + b[m - 3] as int * 65536 + b[m - 2] as int * 256) by (nonlinear_arith)
        requires
            z == y * 256 + b[m - 2] as int,
            y == x * 256 + b[m - 3] as int,
    ;
}

proof fn lemma_payload_from(codes: Seq<u8>, g: nat)
    requires
        valid_codes(codes),
        g <= 5,
    ensures
        be_value(pack(codes).subrange(0, 15 - 3 * g)) == digits_value(codes, 4 * g),
    decreases 5 - g,
{
    let b = pack(codes);
    if g == 5 {
        assert(b.subrange(0, 0) =~= Seq::<u8>::empty());
        assert(digits_value(codes, 20) == 0);
    } else {
        lemma_payload_from(codes, g + 1);
        lemma_be_step(b, 15 - 3 * g);
        assert((14 - (14 - 3 * g)) / 3 == g && (14 - (14 - 3 * g)) % 3 == 0);
        assert((14 - (13 - 3 * g)) / 3 == g && (14 - (13 - 3 * g)) % 3 == 1);
        assert((14 - (12 - 3 * g)) / 3 == g && (14 - (12 - 3 * g)) % 3 == 2);
        let c0 = code_or_zero(codes, (4 * g) as int);
        let c1 = code_or_zero(codes, (4 * g + 1) as int);
        let c2 = code_or_zero(codes, (4 * g + 2) as int);
        let c3 = code_or_zero(codes, (4 * g + 3) as int);
        lemma_group(c0, c1, c2, c3);
        assert(b[14 - 3 * g] as int == c0 + (c1 % 4) * 64);
        assert(b[13 - 3 * g] as int == c1 / 4 + (c2 % 16) * 16);
        assert(b[12 - 3 * g] as int == c2 / 16 + c3 * 4);
        assert(digits_value(codes, 4 * g) == c0 + 64 * (c1 + 64 * (c2 + 64 * (c3 + 64
            * digits_value(codes, 4 * g + 4))))) by {
            assert(digits_value(codes, 4 * g + 3) == c3 + 64 * digits_value(codes, 4 * g + 4));
            assert(digits_value(codes, 4 * g + 2) == c2 + 64 * digits_value(codes, 4 * g + 3));
            assert(digits_value(codes, 4 * g + 1) == c1 + 64 * digits_value(codes, 4 * g + 2));
        }
        assert((c1 % 4) * 64 + 256 * (c1 / 4) == 64 * c1);
        assert(16 * (c2 % 16) * 256 + 65536 * (c2 / 16) == 4096 * c2);
        assert(4 * c3 * 65536 == 262144 * c3);
    }
}

/// The packed form read directly: its last byte is the number of codes, and its
/// first 15 bytes, read as a big-endian number, hold the codes as base-64 digits
/// with the first code least significant, that is the sum of `code i * 64^i`.
pub proof fn lemma_packed_value(codes: Seq<u8>)
    requires
        valid_codes(codes),
    ensures
        pack(codes)[15] == codes.len(),
        be_value(pack(codes).subrange(0, 15)) == digits_value(codes, 0),
{
    lemma_payload_from(codes, 0);
}

/// Every name of 1 to 20 alphabet symbols decodes, after encoding, to itself.
pub proof fn lemma_codec_round_trip(s: Seq<char>)
    requires
        valid_name(s),
    ensures
        chars_of(unpack(pack(codes_of(s)))) == s,
        pack(codes_of(s))[15] == s.len(),
{
    lemma_codes_chars(s);
    lemma_unpack_pack(codes_of(s));
}

} // verus!
