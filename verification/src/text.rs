//! Bounded display lines and decimal formatting of sensor values.
//!
//! Every formatted "label: value unit" string lives in a 16-byte stack
//! buffer (arrayvec's `ArrayString`), so the render loop allocates nothing.
//! Exceeding the bound is a fatal condition, reported rather than truncated.

use vstd::prelude::*;

use crate::fault::FatalError;

verus! {

/// Byte capacity of one display line buffer, fixed at compile time.
pub const LINE_CAPACITY: usize = 16;

/// One formatted display line: a bounded text buffer recreated every loop
/// iteration and drawn at a fixed coordinate. The contents live in
/// arrayvec's stack-allocated `ArrayString`, held opaquely because Verus
/// cannot state that type's own generic bounds.
#[verifier::external_body]
pub struct Line {
    buf: arrayvec::ArrayString<[u8; 16]>,
}

/// The characters currently held by a line buffer.
pub uninterp spec fn line_chars(buf: Line) -> Seq<char>;

/// True when every character is ASCII, so the buffer's byte length equals
/// its character count.
pub open spec fn ascii_chars(s: Seq<char>) -> bool {
    forall|i: int| 0 <= i < s.len() ==> (#[trigger] s[i] as int) < 128
}

/// Relies on arrayvec::ArrayString::new: a fresh buffer is empty.
#[verifier::external_body]
fn line_new() -> (r: Line)
    ensures
        line_chars(r) == Seq::<char>::empty(),
{
    Line { buf: arrayvec::ArrayString::new() }
}

/// Relies on arrayvec::ArrayString::try_push: a one-byte character is
/// appended exactly when a byte of capacity remains, and the buffer is
/// unchanged otherwise.
#[verifier::external_body]
fn line_push_char(line: &mut Line, c: char) -> (r: bool)
    requires
        ascii_chars(line_chars(*old(line))),
        (c as int) < 128,
    ensures
        r == (line_chars(*old(line)).len() < 16),
        r ==> line_chars(*final(line)) == line_chars(*old(line)).push(c),
        !r ==> line_chars(*final(line)) == line_chars(*old(line)),
{
    line.buf.try_push(c).is_ok()
}

/// Relies on arrayvec::ArrayString::try_push_str: the slice is appended
/// exactly when it fits in the remaining capacity, and the buffer is
/// unchanged otherwise.
#[verifier::external_body]
fn line_push_str(line: &mut Line, s: &str) -> (r: bool)
    requires
        ascii_chars(line_chars(*old(line))),
        ascii_chars(s@),
    ensures
        r == (line_chars(*old(line)).len() + s@.len() <= 16),
        r ==> line_chars(*final(line)) == line_chars(*old(line)) + s@,
        !r ==> line_chars(*final(line)) == line_chars(*old(line)),
{
    line.buf.try_push_str(s).is_ok()
}

/// Relies on arrayvec::ArrayString::as_str: borrows the buffer's contents.
#[verifier::external_body]
fn line_as_str(line: &Line) -> (r: &str)
    ensures
        r@ == line_chars(*line),
{
    line.buf.as_str()
}

/// The ASCII digit for one decimal value below ten.
pub open spec fn digit_char(d: nat) -> char {
    ((48 + d) as u8) as char
}

/// The decimal digit string of a value, most significant digit first,
/// without padding or sign.
pub open spec fn dec_digits(v: nat) -> Seq<char>
    decreases v,
{
    if v < 10 {
        seq![digit_char(v)]
    } else {
        dec_digits(v / 10).push(digit_char(v % 10))
    }
}

/// The numeric value a decimal digit string stands for.
pub open spec fn dec_value(s: Seq<char>) -> int
    decreases s.len(),
{
    if s.len() == 0 {
        0
    } else {
        dec_value(s.drop_last()) * 10 + (s.last() as int - 48)
    }
}

/// True of the ten ASCII decimal digit characters.
pub open spec fn is_dec_digit(c: char) -> bool {
    48 <= c as int <= 57
}

/// Every character of a decimal digit string is an ASCII digit.
pub proof fn lemma_dec_digits_are_digits(v: nat)
    ensures
        forall|i: int|
            0 <= i < dec_digits(v).len() ==> is_dec_digit(#[trigger] dec_digits(v)[i]),
        ascii_chars(dec_digits(v)),
        dec_digits(v).len() >= 1,
    decreases v,
{
    if v < 10 {
        assert(dec_digits(v) == seq![digit_char(v)]);
    } else {
        lemma_dec_digits_are_digits(v / 10);
        assert(dec_digits(v) == dec_digits(v / 10).push(digit_char(v % 10)));
    }
}

/// A digit character carries the value it was made from.
pub proof fn lemma_digit_char_val(d: nat)
    requires
        d < 10,
    ensures
        digit_char(d) as int == 48 + d,
{
    assert(((48 + d) as u8) as int == 48 + d);
    assert((((48 + d) as u8) as char) as int == 48 + d);
}

/// Parsing the decimal digit string of a value gives the value back.
pub proof fn lemma_dec_value_of_digits(v: nat)
    ensures
        dec_value(dec_digits(v)) == v,
    decreases v,
{
    assert(dec_value(Seq::<char>::empty()) == 0);
    if v < 10 {
        let s = dec_digits(v);
        assert(s == seq![digit_char(v)]);
        assert(s.drop_last() =~= Seq::<char>::empty());
        lemma_digit_char_val(v);
        assert(s.last() == digit_char(v));
        assert(dec_value(s) == dec_value(s.drop_last()) * 10 + (s.last() as int - 48));
    } else {
        lemma_dec_value_of_digits(v / 10);
        lemma_digit_char_val(v % 10);
        let s = dec_digits(v);
        assert(s.len() == dec_digits(v / 10).len() + 1);
        assert(s.drop_last() =~= dec_digits(v / 10));
        assert(s.last() == digit_char(v % 10));
        assert(dec_value(s) == dec_value(s.drop_last()) * 10 + (s.last() as int - 48));
        assert(dec_value(s) == (v / 10) * 10 + (v % 10));
    }
}

/// Ten to the given power, for digit-count bounds.
pub open spec fn pow10(k: nat) -> nat
    decreases k,
{
    if k == 0 {
        1
    } else {
        10 * pow10((k - 1) as nat)
    }
}

/// A value below ten to the k has at most k decimal digits.
pub proof fn lemma_dec_digits_len(v: nat, k: nat)
    requires
        k >= 1,
        v < pow10(k),
    ensures
        dec_digits(v).len() <= k,
    decreases k,
{
    if v < 10 {
    } else {
        assert(pow10(k) == 10 * pow10((k - 1) as nat));
        assert(v / 10 < pow10((k - 1) as nat)) by {
            let p = pow10((k - 1) as nat);
            assert(v < 10 * p);
            assert(v / 10 < p) by (nonlinear_arith)
                requires
                    v < 10 * p,
                    p >= 1,
            ;
        };
        assert((k - 1) as nat >= 1) by {
            if k == 1 {
                assert(pow10(1nat) == 10);
            }
        };
        lemma_dec_digits_len(v / 10, (k - 1) as nat);
    }
}

/// The ASCII digit of one value below ten, as executable code.
fn digit_of(d: u32) -> (c: char)
    requires
        d < 10,
    ensures
        c == digit_char(d as nat),
        is_dec_digit(c),
{
    let b: u8 = 48 + (d as u8);
    b as char
}

/// The decimal digits of a value, most significant first.
fn dec_chars(v: u32) -> (r: Vec<char>)
    ensures
        r@ == dec_digits(v as nat),
    decreases v,
{
    if v < 10 {
        let mut r: Vec<char> = Vec::new();
        r.push(digit_of(v));
        assert(r@ =~= seq![digit_char(v as nat)]);
        r
    } else {
        let mut r = dec_chars(v / 10);
        r.push(digit_of(v % 10));
        assert(r@ =~= dec_digits((v / 10) as nat).push(digit_char((v % 10) as nat)));
        r
    }
}

/// Append a sequence of ASCII characters; reports whether it all fit.
fn push_digits(line: &mut Line, digits: &Vec<char>) -> (r: bool)
    requires
        ascii_chars(line_chars(*old(line))),
        ascii_chars(digits@),
        line_chars(*old(line)).len() <= 16,
    ensures
        r == (line_chars(*old(line)).len() + digits@.len() <= 16),
        r ==> line_chars(*final(line)) == line_chars(*old(line)) + digits@,
        ascii_chars(line_chars(*final(line))),
        line_chars(*final(line)).len() <= 16,
{
    let mut i: usize = 0;
    while i < digits.len()
        invariant
            0 <= i <= digits.len(),
            ascii_chars(digits@),
            ascii_chars(line_chars(*line)),
            line_chars(*line) == line_chars(*old(line)) + digits@.take(i as int),
            line_chars(*line).len() <= 16,
        decreases digits.len() - i,
    {
        assert((digits@[i as int] as int) < 128);
        if !line_push_char(line, digits[i]) {
            assert(line_chars(*line).len() == 16);
            assert(line_chars(*old(line)).len() + i == 16);
            return false;
        }
        assert(line_chars(*line) =~= line_chars(*old(line)) + digits@.take(i as int + 1));
        i += 1;
    }
    assert(digits@.take(digits@.len() as int) =~= digits@);
    true
}

/// The text of a scaled-integer line: the label, then the quotient of the
/// pre-scaled value by its documented factor (truncated, not rounded) in
/// decimal, then the unit suffix.
pub open spec fn scaled_chars(label: Seq<char>, value: nat, divisor: nat, unit: Seq<char>) -> Seq<
    char,
>
    recommends
        divisor > 0,
{
    label + dec_digits(value / divisor) + unit
}

/// Format a pre-scaled integer reading, such as a humidity transported as
/// twice its percentage or a temperature transported as eight times its
/// degrees. The value is divided by the documented factor and truncated.
/// A line that would exceed the 16-byte buffer is a fatal condition.
pub fn format_scaled(label: &str, value: u32, divisor: u32, unit: &str) -> (r: Result<
    Line,
    FatalError,
>)
    requires
        divisor > 0,
        ascii_chars(label@),
        ascii_chars(unit@),
    ensures
        r is Ok <==> scaled_chars(label@, value as nat, divisor as nat, unit@).len() <= 16,
        r matches Ok(line) ==> line@ == scaled_chars(label@, value as nat, divisor as nat, unit@)
            && line.wf(),
{
    let ghost total = scaled_chars(label@, value as nat, divisor as nat, unit@);
    let mut line = line_new();
    if !line_push_str(&mut line, label) {
        assert(total.len() > 16);
        return Err(FatalError);
    }
    let q = value / divisor;
    let digits = dec_chars(q);
    proof {
        lemma_dec_digits_are_digits(q as nat);
    }
    if !push_digits(&mut line, &digits) {
        assert(total.len() > 16);
        return Err(FatalError);
    }
    if !line_push_str(&mut line, unit) {
        assert(total.len() > 16);
        return Err(FatalError);
    }
    assert(line@ =~= total);
    Ok(line)
}

/// A run of ASCII zero characters.
pub open spec fn zeros(n: nat) -> Seq<char> {
    Seq::new(n, |i| '0')
}

/// A digit string zero-padded on the left to at least four digits.
pub open spec fn pad4(s: Seq<char>) -> Seq<char> {
    if s.len() >= 4 {
        s
    } else {
        zeros((4 - s.len()) as nat) + s
    }
}

/// The four-or-more digit, zero-padded decimal characters of a value.
fn padded4_vec(value: u32) -> (r: Vec<char>)
    ensures
        r@ == pad4(dec_digits(value as nat)),
        ascii_chars(r@),
        r@.len() >= 4,
{
    proof {
        lemma_dec_digits_are_digits(value as nat);
    }
    let digits = dec_chars(value);
    let mut r: Vec<char> = Vec::new();
    let pad: usize = if digits.len() < 4 {
        4 - digits.len()
    } else {
        0
    };
    let mut j: usize = 0;
    while j < pad
        invariant
            0 <= j <= pad,
            pad <= 4,
            r@ =~= zeros(j as nat),
        decreases pad - j,
    {
        r.push('0');
        assert(r@ =~= zeros(j as nat + 1));
        j += 1;
    }
    let mut i: usize = 0;
    while i < digits.len()
        invariant
            0 <= i <= digits.len(),
            digits@ == dec_digits(value as nat),
            r@ =~= zeros(pad as nat) + digits@.take(i as int),
        decreases digits.len() - i,
    {
        r.push(digits[i]);
        assert(r@ =~= zeros(pad as nat) + digits@.take(i as int + 1));
        i += 1;
    }
    assert(digits@.take(digits@.len() as int) =~= digits@);
    assert(r@ =~= pad4(dec_digits(value as nat)));
    assert(forall|i: int| 0 <= i < r@.len() ==> (#[trigger] r@[i] as int) < 128) by {
        assert(('0' as int) < 128);
    }
    r
}

/// The text of a zero-padded raw-count line: the label, then the value in
/// decimal padded with leading zeros to at least four digits.
pub open spec fn padded4_chars(label: Seq<char>, value: nat) -> Seq<char> {
    label + pad4(dec_digits(value))
}

/// Format a raw counter reading, such as one light-sensor channel, as a
/// four-digit zero-padded decimal field after its label. A line that would
/// exceed the 16-byte buffer is a fatal condition.
pub fn format_padded4(label: &str, value: u32) -> (r: Result<Line, FatalError>)
    requires
        ascii_chars(label@),
    ensures
        r is Ok <==> padded4_chars(label@, value as nat).len() <= 16,
        r matches Ok(line) ==> line@ == padded4_chars(label@, value as nat) && line.wf(),
{
    let ghost total = padded4_chars(label@, value as nat);
    let mut line = line_new();
    if !line_push_str(&mut line, label) {
        assert(total.len() > 16);
        return Err(FatalError);
    }
    let padded = padded4_vec(value);
    if !push_digits(&mut line, &padded) {
        assert(total.len() > 16);
        return Err(FatalError);
    }
    assert(line@ =~= total);
    Ok(line)
}

/// The scale factor of a fixed-point reading carrying four fractional
/// decimal digits.
pub const FIXED4_SCALE: u32 = 10000;

/// The text of a fixed-point line: the label, a colon and space, an
/// optional minus sign, the integer part, a point, and exactly four
/// zero-padded fractional digits. `t` is the reading in ten-thousandths.
pub open spec fn fixed4_chars(label: Seq<char>, t: int) -> Seq<char> {
    let mag = if t < 0 {
        -t
    } else {
        t
    };
    let sign: Seq<char> = if t < 0 {
        seq!['-']
    } else {
        Seq::<char>::empty()
    };
    label + seq![':', ' '] + sign + dec_digits((mag / 10000) as nat) + seq!['.'] + pad4(
        dec_digits((mag % 10000) as nat),
    )
}

/// Format a fixed-point reading of four fractional digits, such as a
/// gyroscope rate, after its label and a colon. A line that would exceed
/// the 16-byte buffer is a fatal condition.
pub fn format_fixed4(label: &str, t: i32) -> (r: Result<Line, FatalError>)
    requires
        ascii_chars(label@),
    ensures
        r is Ok <==> fixed4_chars(label@, t as int).len() <= 16,
        r matches Ok(line) ==> line@ == fixed4_chars(label@, t as int) && line.wf(),
{
    let ghost total = fixed4_chars(label@, t as int);
    proof {
        reveal_strlit(": ");
        assert(": "@ =~= seq![':', ' ']);
        assert((':' as int) < 128 && (' ' as int) < 128);
    }
    let m64: i64 = t as i64;
    let mag64: i64 = if m64 < 0 {
        -m64
    } else {
        m64
    };
    let mag: u32 = mag64 as u32;
    let ip: u32 = mag / FIXED4_SCALE;
    let fp: u32 = mag % FIXED4_SCALE;
    let ghost sign: Seq<char> = if t < 0 {
        seq!['-']
    } else {
        Seq::<char>::empty()
    };
    assert(total =~= label@ + seq![':', ' '] + sign + dec_digits(ip as nat) + seq!['.'] + pad4(
        dec_digits(fp as nat),
    ));
    proof {
        lemma_dec_digits_are_digits(ip as nat);
    }
    let mut line = line_new();
    if !line_push_str(&mut line, label) {
        assert(total.len() > 16);
        return Err(FatalError);
    }
    if !line_push_str(&mut line, ": ") {
        assert(total.len() > 16);
        return Err(FatalError);
    }
    if t < 0 {
        assert(('-' as int) < 128);
        if !line_push_char(&mut line, '-') {
            assert(total.len() > 16);
            return Err(FatalError);
        }
        assert(line@ =~= label@ + seq![':', ' '] + sign);
    }
    let digits = dec_chars(ip);
    if !push_digits(&mut line, &digits) {
        assert(total.len() > 16);
        return Err(FatalError);
    }
    assert(('.' as int) < 128);
    if !line_push_char(&mut line, '.') {
        assert(total.len() > 16);
        return Err(FatalError);
    }
    assert(line@ =~= label@ + seq![':', ' '] + sign + dec_digits(ip as nat) + seq!['.']);
    let frac = padded4_vec(fp);
    if !push_digits(&mut line, &frac) {
        assert(total.len() > 16);
        return Err(FatalError);
    }
    assert(line@ =~= total);
    Ok(line)
}

/// Formatting a scaled integer and parsing the numeric portion back out of
/// the line recovers exactly the truncated quotient of the value by its
/// divisor: the digits between the label and the unit suffix read back as
/// `value / divisor`.
pub proof fn lemma_scaled_round_trip(label: Seq<char>, value: nat, divisor: nat, unit: Seq<char>)
    requires
        divisor > 0,
    ensures
        ({
            let s = scaled_chars(label, value, divisor, unit);
            &&& s.len() == label.len() + dec_digits(value / divisor).len() + unit.len()
            &&& dec_value(s.subrange(label.len() as int, s.len() - unit.len())) == value / divisor
        }),
{
    let digits = dec_digits(value / divisor);
    let s = scaled_chars(label, value, divisor, unit);
    assert(s.subrange(label.len() as int, s.len() - unit.len()) =~= digits);
    lemma_dec_value_of_digits(value / divisor);
}

/// A fixed-point line always carries exactly four digits after the decimal
/// point: its fifth-from-last character is the point, and its last four
/// characters are decimal digits, zero-padded if necessary.
pub proof fn lemma_fixed4_four_decimals(label: Seq<char>, t: int)
    ensures
        ({
            let s = fixed4_chars(label, t);
            &&& s.len() >= 5
            &&& s[s.len() - 5] == '.'
            &&& forall|i: int| s.len() - 4 <= i < s.len() ==> is_dec_digit(#[trigger] s[i])
        }),
{
    let mag = if t < 0 {
        -t
    } else {
        t
    };
    let fp = (mag % 10000) as nat;
    let fd = dec_digits(fp);
    lemma_dec_digits_are_digits(fp);
    assert(pow10(0) == 1);
    assert(pow10(1) == 10);
    assert(pow10(2) == 100);
    assert(pow10(3) == 1000);
    assert(pow10(4) == 10000);
    lemma_dec_digits_len(fp, 4);
    let padded = pad4(fd);
    assert(padded.len() == 4);
    assert(forall|i: int| 0 <= i < 4 ==> is_dec_digit(#[trigger] padded[i])) by {
        assert(is_dec_digit('0'));
        if fd.len() < 4 {
            assert(forall|i: int|
                0 <= i < 4 - fd.len() ==> #[trigger] padded[i] == zeros((4 - fd.len()) as nat)[i]);
        }
    }
    let s = fixed4_chars(label, t);
    assert(s.len() >= 5);
    assert(s[s.len() - 5] == '.');
    assert(forall|i: int| s.len() - 4 <= i < s.len() ==> #[trigger] s[i] == padded[i - (s.len()
        - 4)]);
}

impl View for Line {
    type V = Seq<char>;

    open spec fn view(&self) -> Seq<char> {
        line_chars(*self)
    }
}

impl Line {
    /// All line contents are built from ASCII pieces.
    pub open spec fn wf(&self) -> bool {
        ascii_chars(self@) && self@.len() <= 16
    }

    /// Borrow the line's text.
    pub fn text(&self) -> (r: &str)
        ensures
            r@ == self@,
    {
        line_as_str(self)
    }
}

} // verus!
