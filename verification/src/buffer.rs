//! Truncating writes into the fixed snapshot buffer, and decimal rendering.

use vstd::prelude::*;

verus! {

/// Size in bytes of the snapshot buffer.
pub const BUFFER_SIZE: usize = 4096;

/// First position no data byte is ever written to: the last byte of the buffer
/// is kept free for the terminator.
pub const TEXT_LIMIT: usize = 4095;

/// The smaller of two integers.
pub open spec fn min_int(a: int, b: int) -> int {
    if a <= b {
        a
    } else {
        b
    }
}

/// Number of bytes that still fit when `len` bytes are written at `pos`.
pub open spec fn room_left(pos: int, len: int) -> int {
    if pos >= TEXT_LIMIT {
        0
    } else {
        min_int(len, TEXT_LIMIT - pos)
    }
}

/// `after` is `before` with as much of `data` as fits copied in at `pos`,
/// ending at `new_pos`; every other byte is untouched.
pub open spec fn written(
    before: Seq<u8>,
    after: Seq<u8>,
    pos: int,
    data: Seq<u8>,
    new_pos: int,
) -> bool {
    &&& before.len() == BUFFER_SIZE
    &&& after.len() == BUFFER_SIZE
    &&& new_pos == pos + room_left(pos, data.len() as int)
    &&& forall|i: int| pos <= i < new_pos ==> #[trigger] after[i] == data[i - pos]
    &&& forall|i: int|
        0 <= i < BUFFER_SIZE && !(pos <= i < new_pos) ==> #[trigger] after[i] == before[i]
}

/// Two writes in a row are one write of the concatenated data.
pub proof fn lemma_written_then(
    a: Seq<u8>,
    b: Seq<u8>,
    c: Seq<u8>,
    pos: int,
    first: Seq<u8>,
    mid: int,
    second: Seq<u8>,
    end: int,
)
    requires
        0 <= pos,
        written(a, b, pos, first, mid),
        written(b, c, mid, second, end),
    ensures
        written(a, c, pos, first + second, end),
{
    assert forall|i: int| pos <= i < end implies #[trigger] c[i] == (first + second)[i - pos] by {
        if i < mid {
            assert(c[i] == b[i]);
        }
    }
    assert forall|i: int| 0 <= i < BUFFER_SIZE && !(pos <= i < end) implies #[trigger] c[i]
        == a[i] by {
        assert(c[i] == b[i]);
    }
}

/// The bytes of a text made of ASCII characters only.
pub open spec fn ascii(text: Seq<char>) -> Seq<u8> {
    Seq::new(text.len(), |i: int| text[i] as u8)
}

/// The decimal digits of `n`, most significant first, without leading zeros;
/// zero is the single digit `0`.
pub open spec fn decimal_digits(n: nat) -> Seq<u8>
    decreases n,
{
    if n < 10 {
        seq![(48 + n) as u8]
    } else {
        decimal_digits(n / 10).push((48 + n % 10) as u8)
    }
}

/// The decimal text of a signed integer: a minus sign for a negative number,
/// then the digits of its magnitude.
pub open spec fn decimal_text(n: int) -> Seq<u8> {
    if n < 0 {
        seq![45u8] + decimal_digits((-n) as nat)
    } else {
        decimal_digits(n as nat)
    }
}

/// A number below `10^k` has at most `k` digits.
pub proof fn lemma_decimal_digits_len(n: nat)
    ensures
        1 <= decimal_digits(n).len(),
        n < 10 ==> decimal_digits(n).len() == 1,
        n < 10_000_000_000 ==> decimal_digits(n).len() <= 10,
    decreases n,
{
    if n >= 10 {
        lemma_decimal_digits_len(n / 10);
        lemma_decimal_digits_len(n / 10 / 10);
        lemma_decimal_digits_len(n / 10 / 10 / 10);
        lemma_decimal_digits_len(n / 10 / 10 / 10 / 10);
        lemma_decimal_digits_len(n / 10 / 10 / 10 / 10 / 10);
        lemma_decimal_digits_len(n / 10 / 10 / 10 / 10 / 10 / 10);
        lemma_decimal_digits_len(n / 10 / 10 / 10 / 10 / 10 / 10 / 10);
        lemma_decimal_digits_len(n / 10 / 10 / 10 / 10 / 10 / 10 / 10 / 10);
        lemma_decimal_digits_len(n / 10 / 10 / 10 / 10 / 10 / 10 / 10 / 10 / 10);
        reveal_with_fuel(decimal_digits, 11);
    }
}

/// Copies `data` into `buffer` starting at `pos` and returns the position after
/// the last byte written. Bytes that would land at or past `TEXT_LIMIT` are
/// dropped without notice.
pub fn write_to_buffer(buffer: &mut [u8; 4096], pos: usize, data: &[u8]) -> (new_pos: usize)
    ensures
        written(old(buffer)@, final(buffer)@, pos as int, data@, new_pos as int),
{
    let mut new_pos: usize = pos;
    let mut k: usize = 0;
    while k < data.len()
        invariant
            k <= data@.len(),
            written(old(buffer)@, buffer@, pos as int, data@.take(k as int), new_pos as int),
        decreases data@.len() - k,
    {
        if new_pos < TEXT_LIMIT {
            buffer[new_pos] = data[k];
            new_pos += 1;
        }
        k += 1;
    }
    assert(data@.take(k as int) =~= data@);
    new_pos
}

/// Writes the bytes of an ASCII text at `pos`, as `write_to_buffer` does.
pub fn write_text(buffer: &mut [u8; 4096], pos: usize, text: &str) -> (new_pos: usize)
    requires
        vstd::utf8::is_ascii_chars(text@),
    ensures
        written(old(buffer)@, final(buffer)@, pos as int, ascii(text@), new_pos as int),
{
    let bytes = text.as_bytes();
    proof {
        vstd::string::is_ascii_spec_bytes(text);
    }
    assert(bytes@ =~= ascii(text@));
    write_to_buffer(buffer, pos, bytes)
}

/// The magnitude of a signed 32-bit integer.
pub fn magnitude(n: i32) -> (m: u32)
    ensures
        m == if n < 0 {
            -n
        } else {
            n as int
        },
{
    if n < 0 {
        (-(n as i64)) as u32
    } else {
        n as u32
    }
}

/// Writes `n` in decimal at `pos`, as `write_to_buffer` writes its data: a
/// minus sign first when `n` is negative, then the digits without leading
/// zeros.
pub fn write_number(buffer: &mut [u8; 4096], pos: usize, n: i32) -> (new_pos: usize)
    ensures
        written(old(buffer)@, final(buffer)@, pos as int, decimal_text(n as int), new_pos as int),
{
    if n == 0 {
        let zero: [u8; 1] = [48];
        assert(zero@ =~= decimal_text(0));
        return write_to_buffer(buffer, pos, zero.as_slice());
    }
    let mag: u32 = magnitude(n);
    let mut num: u32 = mag;
    let mut digits: [u8; 10] = [0u8;10];
    let mut len: usize = 0;
    proof {
        lemma_decimal_digits_len(mag as nat);
    }
    while num > 0
        invariant
            mag > 0,
            len <= 10,
            decimal_digits(mag as nat).len() <= 10,
            num > 0 ==> decimal_digits(mag as nat) =~= decimal_digits(num as nat) + Seq::new(
                len as nat,
                |j: int| digits@[len - 1 - j],
            ),
            num == 0 ==> decimal_digits(mag as nat) =~= Seq::new(
                len as nat,
                |j: int| digits@[len - 1 - j],
            ),
        decreases num,
    {
        proof {
            lemma_decimal_digits_len(num as nat);
        }
        let ghost prev = digits@;
        let ghost prev_len = len;
        let digit: u8 = 48 + (num % 10) as u8;
        digits[len] = digit;
        len += 1;
        proof {
            let tail = Seq::new(prev_len as nat, |j: int| prev[prev_len - 1 - j]);
            let now = Seq::new(len as nat, |j: int| digits@[len - 1 - j]);
            assert(now =~= seq![digit] + tail);
            if num >= 10 {
                assert(decimal_digits(num as nat) =~= decimal_digits((num / 10) as nat).push(
                    digit,
                ));
                lemma_decimal_digits_len((num / 10) as nat);
            } else {
                assert(decimal_digits(num as nat) =~= seq![digit]);
            }
        }
        num /= 10;
    }
    let ghost start = buffer@;
    let mut new_pos: usize = pos;
    if n < 0 {
        let minus: [u8; 1] = [45];
        new_pos = write_to_buffer(buffer, new_pos, minus.as_slice());
    }
    let ghost sign = if n < 0 {
        seq![45u8]
    } else {
        Seq::<u8>::empty()
    };
    assert(written(start, buffer@, pos as int, sign, new_pos as int));
    let mut i: usize = len;
    while i > 0
        invariant
            i <= len <= 10,
            written(
                start,
                buffer@,
                pos as int,
                sign + Seq::new((len - i) as nat, |j: int| digits@[len - 1 - j]),
                new_pos as int,
            ),
        decreases i,
    {
        let ghost before = buffer@;
        let ghost done = sign + Seq::new((len - i) as nat, |j: int| digits@[len - 1 - j]);
        i -= 1;
        let one: [u8; 1] = [digits[i]];
        let mid: usize = new_pos;
        new_pos = write_to_buffer(buffer, new_pos, one.as_slice());
        proof {
            lemma_written_then(
                start,
                before,
                buffer@,
                pos as int,
                done,
                mid as int,
                one@,
                new_pos as int,
            );
            assert(done + one@ =~= sign + Seq::new(
                (len - i) as nat,
                |j: int| digits@[len - 1 - j],
            ));
        }
    }
    assert(sign + Seq::new(len as nat, |j: int| digits@[len - 1 - j]) =~= decimal_text(n as int));
    new_pos
}

} // verus!
