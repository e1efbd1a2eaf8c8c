//! A pixel canvas and its plain-text PPM encoding.
//!
//! The canvas is an immutable-size, row-major grid of colors with bounded
//! writes. `to_ppm` serializes it to the ASCII PPM form: the header
//! `P3\n{width} {height}\n255\n`, then one textual line per canvas row of
//! space-separated 8-bit channel values, wrapped so that no output line
//! exceeds 70 characters. When a pixel's triple would overrun the current
//! line, the encoder first tries to keep the red and green channels on the
//! line, then only red, and otherwise flushes the line and starts the whole
//! triple on the next one; a row's text always ends with a single newline
//! and no trailing space.

use vstd::prelude::*;

use crate::color::Color;
use crate::color::color_quantized;

verus! {

/// The space character, as a byte.
pub const SP: u8 = 32;
/// The newline character, as a byte.
pub const NL: u8 = 10;

/// Whether `b` is the byte of a decimal digit.
pub open spec fn is_digit_byte(b: u8) -> bool {
    48 <= b <= 57
}

/// The decimal digits of `n`, most significant first, as ASCII bytes.
pub open spec fn dec_bytes(n: nat) -> Seq<u8>
    decreases n,
{
    if n < 10 {
        seq![(48 + n) as u8]
    } else {
        dec_bytes(n / 10).push((48 + n % 10) as u8)
    }
}

/// The decimal digits of `n` are digit bytes, and there is at least one.
pub proof fn lemma_dec_bytes_digits(n: nat)
    ensures
        dec_bytes(n).len() >= 1,
        forall|k: int| 0 <= k < dec_bytes(n).len() ==> is_digit_byte(#[trigger] dec_bytes(n)[k]),
    decreases n,
{
    if n >= 10 {
        lemma_dec_bytes_digits(n / 10);
    }
}

/// A number below 1000 has at most three decimal digits.
pub proof fn lemma_dec_bytes_len(n: nat)
    requires
        n < 1000,
    ensures
        dec_bytes(n).len() == if n < 10 {
            1int
        } else if n < 100 {
            2int
        } else {
            3int
        },
    decreases n,
{
    if n >= 10 {
        lemma_dec_bytes_len(n / 10);
    }
}

/// Append the decimal digits of `n` to `out`.
pub fn push_dec(out: &mut Vec<u8>, n: usize)
    ensures
        final(out)@ == old(out)@ + dec_bytes(n as nat),
    decreases n,
{
    if n >= 10 {
        push_dec(out, n / 10);
    }
    out.push(48 + (n % 10) as u8);
    proof {
        assert(final(out)@ =~= old(out)@ + dec_bytes(n as nat));
    }
}

/// The number of decimal digits of an 8-bit channel value.
fn dec_len_u8(n: u8) -> (r: usize)
    ensures
        r == dec_bytes(n as nat).len(),
        r <= 3,
{
    proof {
        lemma_dec_bytes_len(n as nat);
    }
    if n >= 100 {
        3
    } else if n >= 10 {
        2
    } else {
        1
    }
}

/// The text of one pixel: the three quantized channels, each followed by
/// one space.
pub open spec fn trip_bytes(p: (u8, u8, u8)) -> Seq<u8> {
    dec_bytes(p.0 as nat) + seq![SP] + dec_bytes(p.1 as nat) + seq![SP] + dec_bytes(p.2 as nat)
        + seq![SP]
}

/// One pixel appended to the encoder state `(out, cur)`, where `cur` counts
/// the characters on the line being filled. If the pixel's text fits within
/// 70 characters it is appended whole; otherwise red and green stay on the
/// line when `"{r} {g}\n"` fits in the remaining budget, else only red stays
/// when `"{r}\n"` fits, and else the line's trailing space becomes a newline
/// and the whole triple starts the next line.
pub open spec fn pix_step(out: Seq<u8>, cur: int, p: (u8, u8, u8)) -> (Seq<u8>, int) {
    let line = trip_bytes(p);
    let r_d = dec_bytes(p.0 as nat);
    let g_d = dec_bytes(p.1 as nat);
    let b_d = dec_bytes(p.2 as nat);
    if cur + line.len() > 70 {
        let rg = r_d + seq![SP] + g_d + seq![NL];
        if rg.len() <= 70 - cur {
            (out + rg + b_d + seq![SP], b_d.len() + 1int)
        } else if r_d.len() + 1 <= 70 - cur {
            (out + r_d + seq![NL] + g_d + seq![SP] + b_d + seq![SP], g_d.len() + b_d.len() + 2int)
        } else {
            (out.drop_last() + seq![NL] + line, line.len() as int)
        }
    } else {
        (out + line, cur + line.len())
    }
}

/// The encoder state after appending every pixel of `ps` to `(out0, 0)`.
pub open spec fn row_enc(out0: Seq<u8>, ps: Seq<(u8, u8, u8)>) -> (Seq<u8>, int)
    decreases ps.len(),
{
    if ps.len() == 0 {
        (out0, 0int)
    } else {
        let prev = row_enc(out0, ps.drop_last());
        pix_step(prev.0, prev.1, ps.last())
    }
}

/// The end of a canvas row: the trailing separator space becomes the row's
/// single newline. A row that appended nothing leaves the text as it was.
pub open spec fn row_fin(st: (Seq<u8>, int)) -> Seq<u8> {
    if st.1 == 0 {
        st.0
    } else {
        st.0.drop_last().push(NL)
    }
}

/// The text after encoding every row of `rows`, starting from `out0`. The
/// wrapping state resets at the start of every row.
pub open spec fn rows_enc(out0: Seq<u8>, rows: Seq<Seq<(u8, u8, u8)>>) -> Seq<u8>
    decreases rows.len(),
{
    if rows.len() == 0 {
        out0
    } else {
        row_fin(row_enc(rows_enc(out0, rows.drop_last()), rows.last()))
    }
}

/// The PPM header: `P3\n{w} {h}\n255\n`.
pub open spec fn header_bytes(w: nat, h: nat) -> Seq<u8> {
    seq![80u8, 51u8, 10u8] + dec_bytes(w) + seq![SP] + dec_bytes(h) + seq![NL, 50u8, 53u8, 53u8,
        NL,
    ]
}

/// The whole PPM text for quantized pixel rows `rows`: the header, then
/// every row's wrapped text.
pub open spec fn ppm_bytes(w: nat, h: nat, rows: Seq<Seq<(u8, u8, u8)>>) -> Seq<u8> {
    rows_enc(header_bytes(w, h), rows)
}

/// Every byte of `s` is ASCII (below 0x80).
pub open spec fn all_ascii(s: Seq<u8>) -> bool {
    forall|k: int| 0 <= k < s.len() ==> #[trigger] s[k] < 0x80
}

/// No 71 consecutive bytes of `s` are all without a newline — that is, no
/// line of the text exceeds 70 characters.
pub open spec fn runs_bounded(s: Seq<u8>) -> bool {
    forall|i: int| 0 <= i && i + 71 <= s.len() ==> (#[trigger] s.subrange(i, i + 71)).contains(NL)
}

/// No newline of `s` directly follows a space — no line ends with trailing
/// whitespace.
pub open spec fn no_space_before_nl(s: Seq<u8>) -> bool {
    forall|k: int| 1 <= k < s.len() && #[trigger] s[k] == NL ==> s[k - 1] != SP
}

/// The invariant of the encoder state `(out, cur)`, without the shape of the
/// line's end: `cur` counts the bytes of the open line, which holds no
/// newline, is preceded by one, and never exceeds 70 bytes; the whole text
/// is digits, spaces and newlines, every line so far is within 70 bytes, and
/// no line ends with a space.
pub open spec fn enc_base(out: Seq<u8>, cur: int) -> bool {
    &&& 0 <= cur <= 70
    &&& cur < out.len()
    &&& (forall|k: int| out.len() - cur <= k < out.len() ==> #[trigger] out[k] != NL)
    &&& out[out.len() - cur - 1] == NL
    &&& all_ascii(out)
    &&& runs_bounded(out)
    &&& no_space_before_nl(out)
}

/// The full invariant of the encoder state: additionally, an open line ends
/// with a digit followed by the separator space.
pub open spec fn enc_ok(out: Seq<u8>, cur: int) -> bool {
    &&& enc_base(out, cur)
    &&& cur > 0 ==> out.len() >= 2 && out[out.len() - 1] == SP && is_digit_byte(
        out[out.len() - 2],
    )
}

/// Appending newline-free text to the open line keeps the encoder invariant
/// as long as the line stays within 70 bytes.
proof fn lemma_base_append(out: Seq<u8>, cur: int, chunk: Seq<u8>)
    requires
        enc_base(out, cur),
        cur + chunk.len() <= 70,
        forall|k: int| 0 <= k < chunk.len() ==> is_digit_byte(#[trigger] chunk[k]) || chunk[k]
            == SP,
    ensures
        enc_base(out + chunk, cur + chunk.len()),
{
    let t = out + chunk;
    let cur2 = cur + chunk.len();
    assert(t[t.len() - cur2 - 1] == out[out.len() - cur - 1]);
    assert forall|i: int| 0 <= i && i + 71 <= t.len() implies (#[trigger] t.subrange(
        i,
        i + 71,
    )).contains(NL) by {
        if i + 71 <= out.len() {
            assert(out.subrange(i, i + 71).contains(NL));
            let j = choose|j: int| 0 <= j < 71 && (#[trigger] out.subrange(i, i + 71)[j]) == NL;
            assert(t.subrange(i, i + 71)[j] == NL);
        } else {
            let k0 = out.len() - cur - 1;
            if i <= k0 {
                assert(t.subrange(i, i + 71)[k0 - i] == NL);
            } else {
                assert(false);
            }
        }
    }
}

/// Closing the open line with a newline keeps the encoder invariant and
/// resets the open line to empty; the byte before the newline must not be a
/// space.
proof fn lemma_base_newline(out: Seq<u8>, cur: int)
    requires
        enc_base(out, cur),
        out[out.len() - 1] != SP,
    ensures
        enc_base(out.push(NL), 0),
{
    let t = out.push(NL);
    assert(t[t.len() - 1] == NL);
    assert forall|i: int| 0 <= i && i + 71 <= t.len() implies (#[trigger] t.subrange(
        i,
        i + 71,
    )).contains(NL) by {
        if i + 71 <= out.len() {
            assert(out.subrange(i, i + 71).contains(NL));
            let j = choose|j: int| 0 <= j < 71 && (#[trigger] out.subrange(i, i + 71)[j]) == NL;
            assert(t.subrange(i, i + 71)[j] == NL);
        } else {
            assert(t.subrange(i, i + 71)[out.len() - i] == NL);
        }
    }
}

/// Dropping the last byte of a non-empty open line keeps the encoder
/// invariant.
proof fn lemma_base_drop(out: Seq<u8>, cur: int)
    requires
        enc_base(out, cur),
        cur >= 1,
    ensures
        enc_base(out.drop_last(), cur - 1),
{
    let t = out.drop_last();
    assert(t[t.len() - (cur - 1) - 1] == out[out.len() - cur - 1]);
    assert forall|i: int| 0 <= i && i + 71 <= t.len() implies (#[trigger] t.subrange(
        i,
        i + 71,
    )).contains(NL) by {
        assert(out.subrange(i, i + 71).contains(NL));
        let j = choose|j: int| 0 <= j < 71 && (#[trigger] out.subrange(i, i + 71)[j]) == NL;
        assert(t.subrange(i, i + 71)[j] == NL);
    }
}

/// One pixel step keeps the encoder invariant, and afterwards the open line
/// holds at least a digit and a space.
proof fn lemma_pix_step_ok(out: Seq<u8>, cur: int, p: (u8, u8, u8))
    requires
        enc_ok(out, cur),
    ensures
        enc_ok(pix_step(out, cur, p).0, pix_step(out, cur, p).1),
        pix_step(out, cur, p).1 >= 2,
        pix_step(out, cur, p).0.take(out.len() - cur) == out.take(out.len() - cur),
        pix_step(out, cur, p).0.len() - pix_step(out, cur, p).1 >= out.len() - cur,
{
    let r_d = dec_bytes(p.0 as nat);
    let g_d = dec_bytes(p.1 as nat);
    let b_d = dec_bytes(p.2 as nat);
    let line = trip_bytes(p);
    lemma_dec_bytes_digits(p.0 as nat);
    lemma_dec_bytes_digits(p.1 as nat);
    lemma_dec_bytes_digits(p.2 as nat);
    lemma_dec_bytes_len(p.0 as nat);
    lemma_dec_bytes_len(p.1 as nat);
    lemma_dec_bytes_len(p.2 as nat);
    if cur + line.len() > 70 {
        let rg = r_d + seq![SP] + g_d + seq![NL];
        if rg.len() <= 70 - cur {
            let c1 = r_d + seq![SP] + g_d;
            lemma_base_append(out, cur, c1);
            assert((out + c1)[(out + c1).len() - 1] == g_d[g_d.len() - 1]);
            lemma_base_newline(out + c1, cur + c1.len());
            assert((out + c1).push(NL) =~= out + rg);
            let c2 = b_d + seq![SP];
            lemma_base_append(out + rg, 0, c2);
            assert((out + rg) + c2 =~= out + rg + b_d + seq![SP]);
            let t = out + rg + b_d + seq![SP];
            assert(t[t.len() - 1] == SP);
            assert(t[t.len() - 2] == b_d[b_d.len() - 1]);
        } else if r_d.len() + 1 <= 70 - cur {
            lemma_base_append(out, cur, r_d);
            assert((out + r_d)[(out + r_d).len() - 1] == r_d[r_d.len() - 1]);
            lemma_base_newline(out + r_d, cur + r_d.len());
            assert((out + r_d).push(NL) =~= out + r_d + seq![NL]);
            let c2 = g_d + seq![SP] + b_d + seq![SP];
            lemma_base_append(out + r_d + seq![NL], 0, c2);
            assert((out + r_d + seq![NL]) + c2 =~= out + r_d + seq![NL] + g_d + seq![SP] + b_d
                + seq![SP]);
            let t = out + r_d + seq![NL] + g_d + seq![SP] + b_d + seq![SP];
            assert(t[t.len() - 1] == SP);
            assert(t[t.len() - 2] == b_d[b_d.len() - 1]);
        } else {
            assert(cur >= 1);
            lemma_base_drop(out, cur);
            assert(out.drop_last()[out.drop_last().len() - 1] == out[out.len() - 2]);
            lemma_base_newline(out.drop_last(), cur - 1);
            assert(out.drop_last().push(NL) =~= out.drop_last() + seq![NL]);
            lemma_base_append(out.drop_last() + seq![NL], 0, line);
            assert((out.drop_last() + seq![NL]) + line =~= out.drop_last() + seq![NL] + line);
            let t = out.drop_last() + seq![NL] + line;
            assert(t[t.len() - 1] == SP);
            assert(t[t.len() - 2] == b_d[b_d.len() - 1]);
        }
    } else {
        lemma_base_append(out, cur, line);
        let t = out + line;
        assert(t[t.len() - 1] == SP);
        assert(t[t.len() - 2] == b_d[b_d.len() - 1]);
    }
    let t = pix_step(out, cur, p).0;
    assert forall|j: int| 0 <= j < out.len() - cur implies t[j] == out[j] by {}
    assert(t.take(out.len() - cur) =~= out.take(out.len() - cur));
}

/// Encoding a whole row of pixels keeps the encoder invariant.
proof fn lemma_row_enc_ok(out0: Seq<u8>, ps: Seq<(u8, u8, u8)>)
    requires
        enc_ok(out0, 0),
    ensures
        enc_ok(row_enc(out0, ps).0, row_enc(out0, ps).1),
        ps.len() > 0 ==> row_enc(out0, ps).1 >= 2,
        ps.len() == 0 ==> row_enc(out0, ps) == (out0, 0int),
        out0.is_prefix_of(row_enc(out0, ps).0),
        row_enc(out0, ps).0.len() - row_enc(out0, ps).1 >= out0.len(),
    decreases ps.len(),
{
    if ps.len() == 0 {
        assert(out0.take(out0.len() as int) =~= out0);
    } else {
        lemma_row_enc_ok(out0, ps.drop_last());
        let prev = row_enc(out0, ps.drop_last());
        lemma_pix_step_ok(prev.0, prev.1, ps.last());
        let t = pix_step(prev.0, prev.1, ps.last()).0;
        assert(t.take(prev.0.len() - prev.1) == prev.0.take(prev.0.len() - prev.1));
        assert forall|j: int| 0 <= j < out0.len() implies t[j] == out0[j] by {
            assert(t.take(prev.0.len() - prev.1)[j] == prev.0.take(prev.0.len() - prev.1)[j]);
            assert(prev.0[j] == out0[j]);
        }
        assert(t.take(out0.len() as int) =~= out0);
    }
}

/// Ending a row — the trailing space replaced by the row's newline — keeps
/// the encoder invariant with an empty open line.
proof fn lemma_row_fin_ok(st: (Seq<u8>, int))
    requires
        enc_ok(st.0, st.1),
    ensures
        enc_ok(row_fin(st), 0),
        row_fin(st).len() == st.0.len(),
        row_fin(st).take(st.0.len() - st.1) == st.0.take(st.0.len() - st.1),
{
    if st.1 != 0 {
        lemma_base_drop(st.0, st.1);
        assert(st.0.drop_last()[st.0.drop_last().len() - 1] == st.0[st.0.len() - 2]);
        lemma_base_newline(st.0.drop_last(), st.1 - 1);
    }
    assert(row_fin(st).take(st.0.len() - st.1) =~= st.0.take(st.0.len() - st.1));
}

/// Encoding any number of rows keeps the encoder invariant with an empty
/// open line.
proof fn lemma_rows_enc_ok(out0: Seq<u8>, rows: Seq<Seq<(u8, u8, u8)>>)
    requires
        enc_ok(out0, 0),
    ensures
        enc_ok(rows_enc(out0, rows), 0),
        out0.is_prefix_of(rows_enc(out0, rows)),
    decreases rows.len(),
{
    if rows.len() == 0 {
        assert(rows_enc(out0, rows).take(out0.len() as int) =~= out0);
    } else {
        lemma_rows_enc_ok(out0, rows.drop_last());
        let mid = rows_enc(out0, rows.drop_last());
        lemma_row_enc_ok(mid, rows.last());
        let st = row_enc(mid, rows.last());
        lemma_row_fin_ok(st);
        let t = rows_enc(out0, rows);
        assert forall|j: int| 0 <= j < out0.len() implies t[j] == out0[j] by {
            assert(t.take(st.0.len() - st.1)[j] == st.0.take(st.0.len() - st.1)[j]);
            assert(st.0[j] == mid[j]);
            assert(mid[j] == out0[j]);
        }
        assert(t.take(out0.len() as int) =~= out0);
    }
}

/// Ten to the power `k`.
pub open spec fn pow10(k: nat) -> nat
    decreases k,
{
    if k == 0 {
        1
    } else {
        10 * pow10((k - 1) as nat)
    }
}

/// A number below ten to the `k` has at most `k` decimal digits.
proof fn lemma_dec_bytes_len_le(n: nat, k: nat)
    requires
        k >= 1,
        n < pow10(k),
    ensures
        dec_bytes(n).len() <= k,
    decreases k,
{
    if n >= 10 {
        assert(pow10(k) == 10 * pow10((k - 1) as nat));
        lemma_dec_bytes_len_le(n / 10, (k - 1) as nat);
    }
}

/// The header satisfies the encoder invariant with an empty open line: both
/// of its lines after `P3` are far below 70 bytes because a 64-bit size has
/// at most 20 digits.
proof fn lemma_header_ok(w: nat, h: nat)
    requires
        w < 0x10000000000000000,
        h < 0x10000000000000000,
    ensures
        enc_ok(header_bytes(w, h), 0),
{
    lemma_dec_bytes_digits(w);
    lemma_dec_bytes_digits(h);
    assert(pow10(20) == 100000000000000000000) by {
        reveal_with_fuel(pow10, 21);
    }
    lemma_dec_bytes_len_le(w, 20);
    lemma_dec_bytes_len_le(h, 20);
    let s = header_bytes(w, h);
    let wl = dec_bytes(w).len() as int;
    let hl = dec_bytes(h).len() as int;
    assert(s.len() == 9 + wl + hl);
    assert(s[s.len() - 1] == NL);
    assert forall|i: int| 0 <= i && i + 71 <= s.len() implies (#[trigger] s.subrange(
        i,
        i + 71,
    )).contains(NL) by {
        assert(false);
    }
}

/// The encoder invariant of the whole PPM text of any pixel rows, and its
/// visible consequences: no line exceeds 70 bytes, no line ends with a
/// space, the text ends with a newline, and it is all ASCII.
pub proof fn lemma_ppm_well_formed(w: nat, h: nat, rows: Seq<Seq<(u8, u8, u8)>>)
    requires
        w < 0x10000000000000000,
        h < 0x10000000000000000,
    ensures
        runs_bounded(ppm_bytes(w, h, rows)),
        no_space_before_nl(ppm_bytes(w, h, rows)),
        all_ascii(ppm_bytes(w, h, rows)),
        ppm_bytes(w, h, rows).len() >= 1,
        ppm_bytes(w, h, rows).last() == NL,
        header_bytes(w, h).is_prefix_of(ppm_bytes(w, h, rows)),
{
    lemma_header_ok(w, h);
    lemma_rows_enc_ok(header_bytes(w, h), rows);
    let s = ppm_bytes(w, h, rows);
    assert(s[s.len() - 0 - 1] == NL);
}

/// The ASCII characters of a byte sequence.
pub open spec fn ascii_chars(s: Seq<u8>) -> Seq<char> {
    s.map_values(|b: u8| b as char)
}

/// Relies on `String::from_utf8`: bytes below 0x80 are valid UTF-8 and
/// decode to themselves, one character per byte.
#[verifier::external_body]
fn string_from_ascii(bytes: Vec<u8>) -> (s: String)
    requires
        forall|k: int| 0 <= k < bytes@.len() ==> bytes@[k] < 0x80,
    ensures
        s@ == ascii_chars(bytes@),
{
    String::from_utf8(bytes).unwrap()
}

/// A width × height grid of colors, row-major, with bounded writes.
pub struct Canvas {
    pub width: usize,
    pub height: usize,
    pub pixels: Vec<Vec<Color>>,
}

impl Canvas {
    /// The grid of pixels, row-major: `height` rows of `width` colors.
    pub open spec fn grid(self) -> Seq<Seq<Color>> {
        self.pixels@.map_values(|row: Vec<Color>| row@)
    }

    /// The grid has `height` rows of `width` pixels each.
    pub open spec fn wf(self) -> bool {
        &&& self.pixels@.len() == self.height
        &&& forall|i: int| 0 <= i < self.height ==> (#[trigger] self.pixels@[i])@.len()
            == self.width
    }

    /// The rows of the grid, quantized to 8-bit channel triples.
    pub open spec fn rows_quantized(self) -> Seq<Seq<(u8, u8, u8)>> {
        self.grid().map_values(|row: Seq<Color>| row.map_values(|p: Color| color_quantized(p)))
    }

    /// The PPM text of this canvas, as bytes.
    pub open spec fn ppm(self) -> Seq<u8> {
        ppm_bytes(self.width as nat, self.height as nat, self.rows_quantized())
    }

    /// A canvas of the given size with every pixel the fill color.
    pub fn new(width: usize, height: usize, fill_color: Color) -> (c: Canvas)
        ensures
            c.wf(),
            c.width == width,
            c.height == height,
            c.grid() == Seq::new(height as nat, |i: int| Seq::new(width as nat, |j: int|
                fill_color)),
    {
        let row: Vec<Color> = vec![fill_color; width];
        let pixels: Vec<Vec<Color>> = vec![row; height];
        let c = Canvas { width, height, pixels };
        proof {
            let g = Seq::new(height as nat, |i: int| Seq::new(width as nat, |j: int| fill_color));
            assert forall|i: int| 0 <= i < height implies c.grid()[i] =~= g[i] by {
                assert forall|j: int| 0 <= j < width implies c.grid()[i][j] == g[i][j] by {}
            }
            assert(c.grid() =~= g);
        }
        c
    }

    /// Write `color` at `(x, y)`. Out-of-bounds coordinates are a silent
    /// no-op, never an error.
    pub fn write_pixel(&mut self, x: usize, y: usize, color: &Color)
        requires
            old(self).wf(),
        ensures
            final(self).wf(),
            final(self).width == old(self).width,
            final(self).height == old(self).height,
            x < old(self).width && y < old(self).height ==> final(self).grid() == old(
                self,
            ).grid().update(y as int, old(self).grid()[y as int].update(x as int, *color)),
            !(x < old(self).width && y < old(self).height) ==> final(self).grid() == old(
                self,
            ).grid(),
    {
        if x >= self.width || y >= self.height {
            proof {
                assert(final(self).grid() =~= old(self).grid());
            }
            return;
        }
        let row: &mut Vec<Color> = &mut self.pixels[y];
        row[x] = *color;
        proof {
            let updated = old(self).grid().update(
                y as int,
                old(self).grid()[y as int].update(x as int, *color),
            );
            assert forall|i: int| 0 <= i < final(self).grid().len() implies final(self).grid()[i]
                =~= updated[i] by {}
            assert(final(self).grid() =~= updated);
        }
    }

    /// The PPM text of this canvas: the header `P3\n{width} {height}\n255\n`,
    /// then each canvas row as space-separated quantized channel values,
    /// wrapped so that no line exceeds 70 characters and no line ends with a
    /// space; the text ends with a newline.
    pub fn to_ppm(&self) -> (s: String)
        requires
            self.wf(),
        ensures
            s@ == ascii_chars(self.ppm()),
            runs_bounded(self.ppm()),
            no_space_before_nl(self.ppm()),
            self.ppm().len() >= 1 && self.ppm().last() == NL,
            header_bytes(self.width as nat, self.height as nat).is_prefix_of(self.ppm()),
    {
        let ghost rows_q = self.rows_quantized();
        let mut out: Vec<u8> = Vec::new();
        out.push(80);
        out.push(51);
        out.push(NL);
        push_dec(&mut out, self.width);
        out.push(SP);
        push_dec(&mut out, self.height);
        out.push(NL);
        out.push(50);
        out.push(53);
        out.push(53);
        out.push(NL);
        proof {
            assert(out@ =~= header_bytes(self.width as nat, self.height as nat));
            lemma_header_ok(self.width as nat, self.height as nat);
            assert(rows_q.len() == self.height);
        }
        let ghost header = out@;
        let mut y: usize = 0;
        while y < self.height
            invariant
                self.wf(),
                y <= self.height,
                rows_q == self.rows_quantized(),
                rows_q.len() == self.height,
                header == header_bytes(self.width as nat, self.height as nat),
                enc_ok(header, 0),
                out@ == rows_enc(header, rows_q.take(y as int)),
            decreases self.height - y,
        {
            let ghost row_start = out@;
            let ghost rowq = rows_q[y as int];
            proof {
                lemma_rows_enc_ok(header, rows_q.take(y as int));
                assert(rowq.len() == self.width);
                assert(rowq.take(0) =~= Seq::<(u8, u8, u8)>::empty());
            }
            let mut cur: usize = 0;
            let mut x: usize = 0;
            while x < self.width
                invariant
                    self.wf(),
                    y < self.height,
                    x <= self.width,
                    rows_q == self.rows_quantized(),
                    rows_q.len() == self.height,
                    rowq == rows_q[y as int],
                    rowq.len() == self.width,
                    enc_ok(row_start, 0),
                    (out@, cur as int) == row_enc(row_start, rowq.take(x as int)),
                decreases self.width - x,
            {
                proof {
                    lemma_row_enc_ok(row_start, rowq.take(x as int));
                }
                let ghost prev_out = out@;
                let ghost prev_cur = cur as int;
                let p = self.read_pixel(x, y);
                let (r, g, b) = p.as_u8_tup();
                proof {
                    assert(rowq[x as int] == (r, g, b));
                    lemma_dec_bytes_len(r as nat);
                    lemma_dec_bytes_len(g as nat);
                    lemma_dec_bytes_len(b as nat);
                }
                let mut line: Vec<u8> = Vec::new();
                push_dec(&mut line, r as usize);
                line.push(SP);
                push_dec(&mut line, g as usize);
                line.push(SP);
                push_dec(&mut line, b as usize);
                line.push(SP);
                proof {
                    assert(line@ =~= trip_bytes((r, g, b)));
                }
                let llen = line.len();
                if cur + llen > 70 {
                    let chars_remaining = 70 - cur;
                    let mut rg: Vec<u8> = Vec::new();
                    push_dec(&mut rg, r as usize);
                    rg.push(SP);
                    push_dec(&mut rg, g as usize);
                    rg.push(NL);
                    proof {
                        assert(rg@ =~= dec_bytes(r as nat) + seq![SP] + dec_bytes(g as nat)
                            + seq![NL]);
                    }
                    if rg.len() <= chars_remaining {
                        let blen = dec_len_u8(b);
                        out.append(&mut rg);
                        push_dec(&mut out, b as usize);
                        out.push(SP);
                        cur = blen + 1;
                        proof {
                            assert(out@ =~= pix_step(prev_out, prev_cur, (r, g, b)).0);
                        }
                    } else if dec_len_u8(r) + 1 <= chars_remaining {
                        push_dec(&mut out, r as usize);
                        out.push(NL);
                        push_dec(&mut out, g as usize);
                        out.push(SP);
                        push_dec(&mut out, b as usize);
                        out.push(SP);
                        cur = dec_len_u8(g) + dec_len_u8(b) + 2;
                        proof {
                            assert(out@ =~= pix_step(prev_out, prev_cur, (r, g, b)).0);
                        }
                    } else {
                        let _ = out.pop();
                        out.push(NL);
                        out.append(&mut line);
                        cur = llen;
                        proof {
                            assert(prev_out.subrange(0, prev_out.len() - 1) =~= prev_out.drop_last());
                            assert(out@ =~= pix_step(prev_out, prev_cur, (r, g, b)).0);
                        }
                    }
                } else {
                    cur = cur + llen;
                    out.append(&mut line);
                    proof {
                        assert(out@ =~= pix_step(prev_out, prev_cur, (r, g, b)).0);
                    }
                }
                proof {
                    assert(rowq.take(x as int + 1).drop_last() =~= rowq.take(x as int));
                    assert(rowq.take(x as int + 1).last() == rowq[x as int]);
                    assert((out@, cur as int) == row_enc(row_start, rowq.take(x as int + 1)));
                }
                x = x + 1;
            }
            proof {
                assert(rowq.take(self.width as int) =~= rowq);
                lemma_row_enc_ok(row_start, rowq);
            }
            if cur > 0 {
                let ghost before = out@;
                let _ = out.pop();
                out.push(NL);
                proof {
                    assert(before.subrange(0, before.len() - 1) =~= before.drop_last());
                    assert(out@ =~= row_fin(row_enc(row_start, rowq)));
                }
            }
            proof {
                assert(out@ == row_fin(row_enc(row_start, rowq)));
                assert(rows_q.take(y as int + 1).drop_last() =~= rows_q.take(y as int));
                assert(rows_q.take(y as int + 1).last() == rows_q[y as int]);
                assert(out@ == rows_enc(header, rows_q.take(y as int + 1)));
            }
            y = y + 1;
        }
        proof {
            assert(rows_q.take(self.height as int) =~= rows_q);
            assert(out@ == self.ppm());
            lemma_ppm_well_formed(self.width as nat, self.height as nat, rows_q);
        }
        string_from_ascii(out)
    }

    /// The color at `(x, y)`; the coordinates must be in bounds.
    pub fn read_pixel(&self, x: usize, y: usize) -> (c: Color)
        requires
            self.wf(),
            x < self.width,
            y < self.height,
        ensures
            c == self.grid()[y as int][x as int],
    {
        self.pixels[y][x]
    }
}

} // verus!
