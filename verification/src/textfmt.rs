use vstd::prelude::*;
use vstd::string::StrSliceExecFns;
use vstd::string::StringExecFns;

verus! {

/// The sixteen hexadecimal digit characters, lower case.
pub open spec fn spec_hex_digit(d: int) -> char {
    seq!['0', '1', '2', '3', '4', '5', '6', '7', '8', '9', 'a', 'b', 'c', 'd', 'e', 'f'][d]
}

/// Hexadecimal digits of `v`, zero-padded on the left to at least `w`
/// digits; `w == 1` gives the minimal representation.  No prefix.
pub open spec fn spec_hex_w(v: nat, w: nat) -> Seq<char>
    decreases w, v,
{
    if v < 16 && w <= 1 {
        seq![spec_hex_digit(v as int)]
    } else {
        spec_hex_w(v / 16, if w >= 1 { (w - 1) as nat } else { 0 }).push(
            spec_hex_digit((v % 16) as int),
        )
    }
}

/// How many digits the minimal hexadecimal representation of `v` has.
pub open spec fn spec_hex_len(v: nat) -> nat
    decreases v,
{
    if v < 16 {
        1
    } else {
        1 + spec_hex_len(v / 16)
    }
}

/// Decimal digit characters of `v`, minimal representation.
pub open spec fn spec_dec(v: nat) -> Seq<char>
    decreases v,
{
    if v < 10 {
        seq![spec_hex_digit(v as int)]
    } else {
        spec_dec(v / 10).push(spec_hex_digit((v % 10) as int))
    }
}

/// `n` spaces.
pub open spec fn spec_spaces(n: nat) -> Seq<char> {
    Seq::new(n, |i: int| ' ')
}

/// `s` padded with spaces on the right to at least `w` characters.
pub open spec fn spec_left_align(s: Seq<char>, w: nat) -> Seq<char> {
    if s.len() >= w {
        s
    } else {
        s + spec_spaces((w - s.len()) as nat)
    }
}

/// `s` padded with spaces on the left to at least `w` characters.
pub open spec fn spec_right_align(s: Seq<char>, w: nat) -> Seq<char> {
    if s.len() >= w {
        s
    } else {
        spec_spaces((w - s.len()) as nat) + s
    }
}

/// Sixteen to the power `n`.
pub open spec fn spec_pow16(n: nat) -> nat
    decreases n,
{
    if n == 0 {
        1
    } else {
        16 * spec_pow16((n - 1) as nat)
    }
}

/// The padded hexadecimal form is exactly `w` digits long whenever `v`
/// fits in `w` digits.
pub proof fn lemma_hex_w_len_exact(v: nat, w: nat)
    requires
        1 <= w,
        v < spec_pow16(w),
    ensures
        spec_hex_w(v, w).len() == w,
    decreases w,
{
    if v < 16 && w <= 1 {
    } else {
        assert(spec_pow16(w) == 16 * spec_pow16((w - 1) as nat));
        if w == 1 {
            assert(spec_pow16(1nat) == 16) by {
                assert(spec_pow16(0nat) == 1);
            }
            assert(false);
        } else {
            assert(v / 16 < spec_pow16((w - 1) as nat));
            lemma_hex_w_len_exact(v / 16, (w - 1) as nat);
        }
    }
}

/// Every `u64` fits in sixteen hexadecimal digits.
pub proof fn lemma_u64_fits_16_digits(v: u64)
    ensures
        spec_hex_w(v as nat, 16) .len() == 16,
{
    assert(spec_pow16(16) == 0x10000000000000000) by {
        assert(spec_pow16(0nat) == 1);
        assert(spec_pow16(1nat) == 0x10);
        assert(spec_pow16(2nat) == 0x100);
        assert(spec_pow16(3nat) == 0x1000);
        assert(spec_pow16(4nat) == 0x10000);
        assert(spec_pow16(5nat) == 0x100000);
        assert(spec_pow16(6nat) == 0x1000000);
        assert(spec_pow16(7nat) == 0x10000000);
        assert(spec_pow16(8nat) == 0x100000000);
        assert(spec_pow16(9nat) == 0x1000000000);
        assert(spec_pow16(10nat) == 0x10000000000);
        assert(spec_pow16(11nat) == 0x100000000000);
        assert(spec_pow16(12nat) == 0x1000000000000);
        assert(spec_pow16(13nat) == 0x10000000000000);
        assert(spec_pow16(14nat) == 0x100000000000000);
        assert(spec_pow16(15nat) == 0x1000000000000000);
    }
    lemma_hex_w_len_exact(v as nat, 16);
}

/// Every value below 2^32 fits in eight hexadecimal digits.
pub proof fn lemma_u32_fits_8_digits(v: u64)
    requires
        v < 0x100000000,
    ensures
        spec_hex_w(v as nat, 8).len() == 8,
{
    assert(spec_pow16(8) == 0x100000000) by {
        assert(spec_pow16(0nat) == 1);
        assert(spec_pow16(1nat) == 0x10);
        assert(spec_pow16(2nat) == 0x100);
        assert(spec_pow16(3nat) == 0x1000);
        assert(spec_pow16(4nat) == 0x10000);
        assert(spec_pow16(5nat) == 0x100000);
        assert(spec_pow16(6nat) == 0x1000000);
        assert(spec_pow16(7nat) == 0x10000000);
    }
    lemma_hex_w_len_exact(v as nat, 8);
}

/// One hexadecimal digit as a string slice.
fn hex_digit_str(d: u64) -> (r: &'static str)
    requires
        d < 16,
    ensures
        r@ =~= seq![spec_hex_digit(d as int)],
{
    proof {
        reveal_strlit("0");
        reveal_strlit("1");
        reveal_strlit("2");
        reveal_strlit("3");
        reveal_strlit("4");
        reveal_strlit("5");
        reveal_strlit("6");
        reveal_strlit("7");
        reveal_strlit("8");
        reveal_strlit("9");
        reveal_strlit("a");
        reveal_strlit("b");
        reveal_strlit("c");
        reveal_strlit("d");
        reveal_strlit("e");
        reveal_strlit("f");
    }
    if d == 0 {
        "0"
    } else if d == 1 {
        "1"
    } else if d == 2 {
        "2"
    } else if d == 3 {
        "3"
    } else if d == 4 {
        "4"
    } else if d == 5 {
        "5"
    } else if d == 6 {
        "6"
    } else if d == 7 {
        "7"
    } else if d == 8 {
        "8"
    } else if d == 9 {
        "9"
    } else if d == 10 {
        "a"
    } else if d == 11 {
        "b"
    } else if d == 12 {
        "c"
    } else if d == 13 {
        "d"
    } else if d == 14 {
        "e"
    } else {
        "f"
    }
}

/// Hexadecimal digits of `v`, zero-padded on the left to at least `w`
/// digits, without a prefix.
pub fn hex_w(v: u64, w: usize) -> (r: String)
    ensures
        r@ == spec_hex_w(v as nat, w as nat),
    decreases w, v,
{
    if v < 16 && w <= 1 {
        hex_digit_str(v).to_owned()
    } else {
        let mut rest = hex_w(v / 16, if w >= 1 { w - 1 } else { 0 });
        rest.append(hex_digit_str(v % 16));
        rest
    }
}

/// Minimal decimal representation of `v`.
pub fn dec_u64(v: u64) -> (r: String)
    ensures
        r@ == spec_dec(v as nat),
    decreases v,
{
    if v < 10 {
        hex_digit_str(v).to_owned()
    } else {
        let mut rest = dec_u64(v / 10);
        rest.append(hex_digit_str(v % 10));
        rest
    }
}

/// `n` spaces.
pub fn spaces(n: usize) -> (r: String)
    ensures
        r@ == spec_spaces(n as nat),
{
    proof {
        reveal_strlit(" ");
    }
    let mut s = String::new();
    let mut i: usize = 0;
    while i < n
        invariant
            i <= n,
            s@ =~= spec_spaces(i as nat),
        decreases n - i,
    {
        s.append(" ");
        proof {
            reveal_strlit(" ");
            assert(s@ =~= spec_spaces((i + 1) as nat));
        }
        i = i + 1;
    }
    s
}

/// `s` padded with spaces on the right to at least `w` characters.
pub fn left_align(s: &str, w: usize) -> (r: String)
    ensures
        r@ == spec_left_align(s@, w as nat),
{
    let n = s.unicode_len();
    let mut r = s.to_owned();
    if n < w {
        let pad = spaces(w - n);
        r.append(pad.as_str());
    }
    r
}

/// The minimal hexadecimal form of `v` with a `0x` prefix, space-padded on
/// the left to at least `w` characters in all.
pub open spec fn spec_hex_0x_right_align(v: nat, w: nat) -> Seq<char> {
    spec_right_align("0x"@ + spec_hex_w(v, 1), w)
}

/// Format `v` as `0x`-prefixed minimal hexadecimal, right-aligned to `w`.
pub fn hex_0x_right_align(v: u64, w: usize) -> (r: String)
    ensures
        r@ == spec_hex_0x_right_align(v as nat, w as nat),
{
    proof {
        reveal_strlit("0x");
    }
    let digits = hex_w(v, 1);
    let n = digits.as_str().unicode_len();
    let mut body = String::from_str("0x");
    body.append(digits.as_str());
    proof {
        assert(body@ =~= "0x"@ + spec_hex_w(v as nat, 1));
    }
    if w <= 2 || n >= w - 2 {
        proof {
            assert(body@.len() >= w as nat);
        }
        body
    } else {
        let mut r = spaces(w - 2 - n);
        r.append(body.as_str());
        proof {
            assert(r@ =~= spec_spaces((w - 2 - n) as nat) + body@);
        }
        r
    }
}

/// Bytes rendered as pairs of hexadecimal digits, in order.
pub open spec fn spec_hex_bytes(bs: Seq<u8>) -> Seq<char>
    decreases bs.len(),
{
    if bs.len() == 0 {
        Seq::<char>::empty()
    } else {
        spec_hex_w(bs[0] as nat, 2) + spec_hex_bytes(bs.skip(1))
    }
}

/// A sixteen-byte identifier in its canonical hyphenated form: groups of
/// 4, 2, 2, 2 and 6 bytes, lower-case hexadecimal.
pub open spec fn spec_uuid_hyphenated(bs: Seq<u8>) -> Seq<char> {
    spec_hex_bytes(bs.subrange(0, 4)) + "-"@ + spec_hex_bytes(bs.subrange(4, 6)) + "-"@
        + spec_hex_bytes(bs.subrange(6, 8)) + "-"@ + spec_hex_bytes(bs.subrange(8, 10)) + "-"@
        + spec_hex_bytes(bs.subrange(10, 16))
}

/// Hexadecimal digits of a byte range, two per byte.
fn hex_bytes_range(bs: &[u8], from: usize, to: usize) -> (r: String)
    requires
        from <= to <= bs@.len(),
    ensures
        r@ == spec_hex_bytes(bs@.subrange(from as int, to as int)),
    decreases to - from,
{
    if from == to {
        proof {
            assert(bs@.subrange(from as int, to as int).len() == 0);
        }
        String::new()
    } else {
        let mut r = hex_w(bs[from] as u64, 2);
        let rest = hex_bytes_range(bs, from + 1, to);
        r.append(rest.as_str());
        proof {
            let range = bs@.subrange(from as int, to as int);
            assert(range[0] == bs@[from as int]);
            assert(range.skip(1) =~= bs@.subrange(from as int + 1, to as int));
        }
        r
    }
}

/// Render a sixteen-byte identifier in hyphenated form.
pub fn uuid_hyphenated(bs: &[u8]) -> (r: String)
    requires
        bs@.len() == 16,
    ensures
        r@ == spec_uuid_hyphenated(bs@),
{
    let mut r = hex_bytes_range(bs, 0, 4);
    r.append("-");
    let g2 = hex_bytes_range(bs, 4, 6);
    r.append(g2.as_str());
    r.append("-");
    let g3 = hex_bytes_range(bs, 6, 8);
    r.append(g3.as_str());
    r.append("-");
    let g4 = hex_bytes_range(bs, 8, 10);
    r.append(g4.as_str());
    r.append("-");
    let g5 = hex_bytes_range(bs, 10, 16);
    r.append(g5.as_str());
    proof {
        assert(r@ =~= spec_uuid_hyphenated(bs@));
    }
    r
}


/// The minimal representation is never longer than `n` digits for values
/// below sixteen to the `n`.
pub proof fn lemma_hex_len_le(v: nat, n: nat)
    requires
        1 <= n,
        v < spec_pow16(n),
    ensures
        spec_hex_len(v) <= n,
    decreases n,
{
    if v < 16 {
    } else {
        assert(spec_pow16(n) == 16 * spec_pow16((n - 1) as nat));
        if n == 1 {
            assert(spec_pow16(0nat) == 1);
            assert(false);
        } else {
            assert(v / 16 < spec_pow16((n - 1) as nat)) by (nonlinear_arith)
                requires
                    v < 16 * spec_pow16((n - 1) as nat),
            ;
            lemma_hex_len_le(v / 16, (n - 1) as nat);
        }
    }
}

/// Without padding, the rendered digits are exactly the minimal length.
pub proof fn lemma_hex_w1_len(v: nat, w: nat)
    requires
        w <= 1,
    ensures
        spec_hex_w(v, w).len() == spec_hex_len(v),
    decreases v,
{
    if v < 16 {
    } else {
        lemma_hex_w1_len(v / 16, 0);
    }
}


} // verus!
