//! Decimal text for messages.

use crate::config::DType;
use crate::segmented_kv::PlaneKind;
use vstd::prelude::*;
use vstd::string::StringExecFns;

verus! {

/// The decimal digits of a number, most significant first, without leading zeros.
pub open spec fn digits(n: nat) -> Seq<char>
    decreases n,
{
    if n < 10 {
        seq![digit(n)]
    } else {
        digits(n / 10).push(digit(n % 10))
    }
}

/// The character of one decimal digit.
pub open spec fn digit(d: nat) -> char {
    if d == 0 {
        '0'
    } else if d == 1 {
        '1'
    } else if d == 2 {
        '2'
    } else if d == 3 {
        '3'
    } else if d == 4 {
        '4'
    } else if d == 5 {
        '5'
    } else if d == 6 {
        '6'
    } else if d == 7 {
        '7'
    } else if d == 8 {
        '8'
    } else {
        '9'
    }
}

fn digit_text(d: u64) -> (s: &'static str)
    requires
        d < 10,
    ensures
        s@ == seq![digit(d as nat)],
{
    proof {
        reveal_strlit("0");
        reveal_strlit("1");
        reveal_strlit("2");
        reveal_strlit("3");
        reveal_strlit("4");
        reveal_strlit("5");
        reveal_strlit("6");
        reveal_strlit("7");
        reveal_strlit("8");
        reveal_strlit("9");
    }
    let s: &'static str = if d == 0 {
        "0"
    } else if d == 1 {
        "1"
    } else if d == 2 {
        "2"
    } else if d == 3 {
        "3"
    } else if d == 4 {
        "4"
    } else if d == 5 {
        "5"
    } else if d == 6 {
        "6"
    } else if d == 7 {
        "7"
    } else if d == 8 {
        "8"
    } else {
        "9"
    };
    assert(s@ =~= seq![digit(d as nat)]);
    s
}

/// Appends the decimal digits of `n`.
pub fn push_number(out: &mut String, n: u64)
    ensures
        final(out)@ == old(out)@ + digits(n as nat),
    decreases n,
{
    if n >= 10 {
        push_number(out, n / 10);
    }
    let d: u64 = n % 10;
    out.append(digit_text(d));
    assert(out@ =~= old(out)@ + digits(n as nat));
}

/// Appends a piece of text.
pub fn push_text(out: &mut String, text: &str)
    ensures
        final(out)@ == old(out)@ + text@,
{
    out.append(text);
}

/// A number with its sign.
pub open spec fn signed(n: int) -> Seq<char> {
    if n < 0 {
        "-"@ + digits((-n) as nat)
    } else {
        digits(n as nat)
    }
}

/// Appends a number with its sign.
pub fn push_signed(out: &mut String, n: i32)
    ensures
        final(out)@ == old(out)@ + signed(n as int),
{
    if n < 0 {
        push_text(out, "-");
        push_number(out, (-(n as i64)) as u64);
    } else {
        push_number(out, n as u64);
    }
    assert(out@ =~= old(out)@ + signed(n as int));
}

/// A number that may be absent.
pub open spec fn optional(n: Option<usize>) -> Seq<char> {
    match n {
        Some(x) => "Some("@ + digits(x as nat) + ")"@,
        None => "None"@,
    }
}

/// Appends a number that may be absent.
pub fn push_optional(out: &mut String, n: Option<usize>)
    ensures
        final(out)@ == old(out)@ + optional(n),
{
    match n {
        Some(x) => {
            push_text(out, "Some(");
            push_number(out, x as u64);
            push_text(out, ")");
        },
        None => push_text(out, "None"),
    }
    assert(out@ =~= old(out)@ + optional(n));
}

/// The name of an element type.
pub open spec fn dtype_name(dtype: DType) -> Seq<char> {
    match dtype {
        DType::F32 => "F32"@,
        DType::F16 => "F16"@,
        DType::Bf16 => "Bf16"@,
        DType::I32 => "I32"@,
        DType::U32 => "U32"@,
        DType::I2S => "I2S"@,
        DType::Iq4Nl => "Iq4Nl"@,
        DType::Q4_0 => "Q4_0"@,
        DType::Q4_1 => "Q4_1"@,
        DType::Q5_0 => "Q5_0"@,
        DType::Q5_1 => "Q5_1"@,
        DType::Q8_0 => "Q8_0"@,
        DType::Turbo2 => "Turbo2"@,
        DType::Turbo3 => "Turbo3"@,
        DType::Turbo4 => "Turbo4"@,
        DType::Other(n) => "Other("@ + digits(n as nat) + ")"@,
    }
}

/// Appends the name of an element type.
pub fn push_dtype(out: &mut String, dtype: DType)
    ensures
        final(out)@ == old(out)@ + dtype_name(dtype),
{
    match dtype {
        DType::F32 => push_text(out, "F32"),
        DType::F16 => push_text(out, "F16"),
        DType::Bf16 => push_text(out, "Bf16"),
        DType::I32 => push_text(out, "I32"),
        DType::U32 => push_text(out, "U32"),
        DType::I2S => push_text(out, "I2S"),
        DType::Iq4Nl => push_text(out, "Iq4Nl"),
        DType::Q4_0 => push_text(out, "Q4_0"),
        DType::Q4_1 => push_text(out, "Q4_1"),
        DType::Q5_0 => push_text(out, "Q5_0"),
        DType::Q5_1 => push_text(out, "Q5_1"),
        DType::Q8_0 => push_text(out, "Q8_0"),
        DType::Turbo2 => push_text(out, "Turbo2"),
        DType::Turbo3 => push_text(out, "Turbo3"),
        DType::Turbo4 => push_text(out, "Turbo4"),
        DType::Other(n) => {
            push_text(out, "Other(");
            push_number(out, n as u64);
            push_text(out, ")");
            assert(out@ =~= old(out)@ + dtype_name(dtype));
        },
    }
}

/// The name of a plane kind.
pub open spec fn plane_name(kind: PlaneKind) -> Seq<char> {
    match kind {
        PlaneKind::K => "K"@,
        PlaneKind::V => "V"@,
        PlaneKind::QsaRaw => "QsaRaw"@,
        PlaneKind::QsaBlock => "QsaBlock"@,
    }
}

/// Appends the name of a plane kind.
pub fn push_plane(out: &mut String, kind: PlaneKind)
    ensures
        final(out)@ == old(out)@ + plane_name(kind),
{
    match kind {
        PlaneKind::K => push_text(out, "K"),
        PlaneKind::V => push_text(out, "V"),
        PlaneKind::QsaRaw => push_text(out, "QsaRaw"),
        PlaneKind::QsaBlock => push_text(out, "QsaBlock"),
    }
}

} // verus!
