use vstd::prelude::*;

verus! {

/// The decimal digit for `d` (which is below ten).
pub open spec fn digit(d: nat) -> char {
    seq!['0', '1', '2', '3', '4', '5', '6', '7', '8', '9'][d as int]
}

/// The decimal representation of `n`, without leading zeros.
pub open spec fn decimal(n: nat) -> Seq<char>
    decreases n,
{
    if n < 10 {
        seq![digit(n)]
    } else {
        decimal(n / 10).push(digit(n % 10))
    }
}

/// `s` with zeros in front up to `width` characters.
pub open spec fn zero_padded(s: Seq<char>, width: nat) -> Seq<char> {
    if s.len() >= width {
        s
    } else {
        Seq::new((width - s.len()) as nat, |i: int| '0') + s
    }
}

/// The decimal representation of `n`, zero-padded to `width` characters.
pub open spec fn padded(n: nat, width: nat) -> Seq<char> {
    zero_padded(decimal(n), width)
}

/// The magnitude of a duration.
pub open spec fn magnitude(d: i64) -> nat {
    if d < 0 {
        (-d) as nat
    } else {
        d as nat
    }
}

/// The sign shown in front of a duration: none in mode 0, "-" for negatives in
/// mode 1, "-" or "+" in mode 2.
pub open spec fn sign_text(d: i64, sign_mode: u8) -> Seq<char> {
    if sign_mode == 1 && d < 0 {
        "-"@
    } else if sign_mode == 2 {
        if d < 0 {
            "-"@
        } else {
            "+"@
        }
    } else {
        ""@
    }
}

/// A duration of `d` milliseconds as text: `h:mm:ss.mmm` from an hour on,
/// `mm:ss.mmm` from a minute on, `ss.mmm` below, after the sign that
/// `sign_mode` asks for.
pub open spec fn duration_text(d: i64, sign_mode: u8) -> Seq<char> {
    let a = magnitude(d);
    let hours = a / 3_600_000;
    let minutes = a / 60_000;
    let seconds = (a / 1000) % 60;
    let millis = a % 1000;
    let tail = ":"@ + padded(seconds, 2) + "."@ + padded(millis, 3);
    if hours > 0 {
        sign_text(d, sign_mode) + decimal(hours) + ":"@ + padded(minutes % 60, 2) + tail
    } else if minutes > 0 {
        sign_text(d, sign_mode) + padded(minutes, 2) + tail
    } else {
        sign_text(d, sign_mode) + padded(seconds, 2) + "."@ + padded(millis, 3)
    }
}

/// The one-character text of the digit `d`.
fn digit_str(d: u64) -> (r: &'static str)
    requires
        d < 10,
    ensures
        r@ == seq![digit(d as nat)],
{
    proof {
        reveal_strlit("0");
        reveal_strlit("1");
        reveal_strlit("2");
        reveal_strlit("3");
        reveal_strlit("4");
        reveal_strlit("5");
        reveal_strlit("6");
        reveal_strlit("7");
        reveal_strlit("8");
        reveal_strlit("9");
    }
    let r = if d == 0 {
        "0"
    } else if d == 1 {
        "1"
    } else if d == 2 {
        "2"
    } else if d == 3 {
        "3"
    } else if d == 4 {
        "4"
    } else if d == 5 {
        "5"
    } else if d == 6 {
        "6"
    } else if d == 7 {
        "7"
    } else if d == 8 {
        "8"
    } else {
        "9"
    };
    assert(r@ =~= seq![digit(d as nat)]);
    r
}

/// Appends the decimal representation of `n`.
fn push_decimal(out: &mut String, n: u64)
    ensures
        final(out)@ == old(out)@ + decimal(n as nat),
    decreases n,
{
    if n >= 10 {
        push_decimal(out, n / 10);
    }
    out.append(digit_str(n % 10));
    assert(final(out)@ =~= old(out)@ + decimal(n as nat)) by {
        if n >= 10 {
            assert(decimal(n as nat) == decimal((n / 10) as nat).push(digit((n % 10) as nat)));
        }
    }
}

/// The number of decimal digits of `n`.
fn decimal_len(n: u64) -> (r: u64)
    ensures
        r == decimal(n as nat).len(),
    decreases n,
{
    if n < 10 {
        1
    } else {
        let k = decimal_len(n / 10);
        proof {
            lemma_decimal_len_bound((n / 10) as nat);
        }
        k + 1
    }
}

/// `n` has at most `n + 1` decimal digits.
proof fn lemma_decimal_len_bound(n: nat)
    ensures
        decimal(n).len() <= n + 1,
    decreases n,
{
    if n >= 10 {
        lemma_decimal_len_bound(n / 10);
    }
}

/// Appends the decimal representation of `n`, zero-padded to `width` characters.
fn push_padded(out: &mut String, n: u64, width: usize)
    ensures
        final(out)@ == old(out)@ + padded(n as nat, width as nat),
{
    let len = decimal_len(n);
    let w = width as u64;
    let mut i: u64 = len;
    let ghost start = out@;
    while i < w
        invariant
            w == width,
            len <= i,
            len < width ==> i <= width,
            len >= width ==> i == len,
            out@ == start + Seq::new((i - len) as nat, |j: int| '0'),
        decreases w - i,
    {
        proof {
            reveal_strlit("0");
        }
        out.append("0");
        assert(out@ =~= start + Seq::new((i + 1 - len) as nat, |j: int| '0'));
        i += 1;
    }
    push_decimal(out, n);
    assert(Seq::new((i - len) as nat, |j: int| '0') + decimal(n as nat) =~= padded(n as nat, width as nat));
    assert(out@ =~= start + padded(n as nat, width as nat));
}

/// A duration of `d` milliseconds as text: `h:mm:ss.mmm` from an hour on,
/// `mm:ss.mmm` from a minute on, `ss.mmm` below; `sign_mode` 1 puts "-" in
/// front of negatives, 2 puts "-" or "+" in front of every duration, any other
/// value no sign.
pub fn format_duration(d: i64, sign_mode: u8) -> (r: String)
    ensures
        r@ == duration_text(d, sign_mode),
{
    let mut out = String::new();
    if sign_mode == 1 && d < 0 {
        out.append("-");
    } else if sign_mode == 2 {
        if d < 0 {
            out.append("-");
        } else {
            out.append("+");
        }
    } else {
        out.append("");
    }
    assert(out@ =~= sign_text(d, sign_mode));
    let a: u64 = if d < 0 {
        (-(d as i128)) as u64
    } else {
        d as u64
    };
    let hours = a / 3_600_000;
    let minutes = a / 60_000;
    let seconds = (a / 1000) % 60;
    let millis = a % 1000;
    if hours > 0 {
        push_decimal(&mut out, hours);
        out.append(":");
        push_padded(&mut out, minutes % 60, 2);
    } else if minutes > 0 {
        push_padded(&mut out, minutes, 2);
    } else {
        push_padded(&mut out, seconds, 2);
        out.append(".");
        push_padded(&mut out, millis, 3);
        assert(out@ =~= duration_text(d, sign_mode));
        return out;
    }
    out.append(":");
    push_padded(&mut out, seconds, 2);
    out.append(".");
    push_padded(&mut out, millis, 3);
    assert(out@ =~= duration_text(d, sign_mode));
    out
}

/// How `{:0width$}` renders the integer `v`: negatives get "-" and then their
/// magnitude zero-padded to one character less.
pub open spec fn signed_padded(v: int, width: nat) -> Seq<char> {
    if v < 0 {
        "-"@ + zero_padded(decimal((-v) as nat), if width >= 1 {
            (width - 1) as nat
        } else {
            0
        })
    } else {
        padded(v as nat, width)
    }
}

/// `x` negated when `d` is negative.
pub open spec fn with_sign_of(d: i64, x: int) -> int {
    if d < 0 {
        -x
    } else {
        x
    }
}

/// A duration of `d` milliseconds as a clock text: `hh:mm:ss.mmm` from an
/// hour on, else `mm:ss.mmm`. Each field is the truncating quotient or
/// remainder of `d`, so a negative duration shows negative fields.
pub open spec fn clock_text(d: i64) -> Seq<char> {
    let a = magnitude(d);
    let hours = with_sign_of(d, (a / 3_600_000) as int);
    let minutes = with_sign_of(d, ((a % 3_600_000) / 60_000) as int);
    let seconds = with_sign_of(d, ((a % 60_000) / 1000) as int);
    let millis = with_sign_of(d, (a % 1000) as int);
    let tail = signed_padded(minutes, 2) + ":"@ + signed_padded(seconds, 2) + "."@ + signed_padded(
        millis,
        3,
    );
    if hours > 0 {
        signed_padded(hours, 2) + ":"@ + tail
    } else {
        tail
    }
}

/// Appends `v` as `{:0width$}` renders it, where `v` is `mag`, negated when
/// `negative` holds.
fn push_signed_padded(out: &mut String, negative: bool, mag: u64, width: usize)
    requires
        width >= 1,
    ensures
        final(out)@ == old(out)@ + signed_padded(if negative { -(mag as int) } else { mag as int }, width as nat),
{
    if negative && mag > 0 {
        out.append("-");
        push_padded(out, mag, width - 1);
    } else {
        push_padded(out, mag, width);
    }
}

/// A duration of `d` milliseconds as a clock text: `hh:mm:ss.mmm` from an
/// hour on, else `mm:ss.mmm`; every field is the truncating quotient or
/// remainder of `d`.
pub fn format_clock(d: i64) -> (r: String)
    ensures
        r@ == clock_text(d),
{
    let negative = d < 0;
    let a: u64 = if d < 0 {
        (-(d as i128)) as u64
    } else {
        d as u64
    };
    let hours = a / 3_600_000;
    let mut out = String::new();
    if !negative && hours > 0 {
        push_padded(&mut out, hours, 2);
        out.append(":");
    }
    push_signed_padded(&mut out, negative, (a % 3_600_000) / 60_000, 2);
    out.append(":");
    push_signed_padded(&mut out, negative, (a % 60_000) / 1000, 2);
    out.append(".");
    push_signed_padded(&mut out, negative, a % 1000, 3);
    assert(out@ =~= clock_text(d));
    out
}

} // verus!
