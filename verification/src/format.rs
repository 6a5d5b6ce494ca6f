//! Rendering of byte totals: the five size modes, the divisor tables, and the
//! decimal rendering used both for sizes and for numeric UID fallbacks.

use vstd::prelude::*;

verus! {

/// How a byte total is displayed.
#[derive(Clone, Copy, Debug, PartialEq, Eq, Structural)]
pub enum SizeMode {
    Bytes,
    Kilobytes,
    Megabytes,
    Gigabytes,
    Human,
}

/// The fixed divisor used by the explicit kilo/mega/giga modes; the byte and
/// human modes have no fixed divisor and report 1 here.
pub open spec fn spec_divisor(mode: SizeMode, si: bool) -> u64 {
    match mode {
        SizeMode::Kilobytes => if si { 1000 } else { 1024 },
        SizeMode::Megabytes => if si { 1000000 } else { 1048576 },
        SizeMode::Gigabytes => if si { 1000000000 } else { 1073741824 },
        _ => 1,
    }
}

/// The divisor human mode picks for a size: the largest divisor in the active
/// table that the size strictly exceeds tenfold, or 1 when none qualifies.
pub open spec fn spec_human_divisor(size: u64, si: bool) -> u64 {
    if si {
        if size > 10 * 1000000000000 {
            1000000000000
        } else if size > 10 * 1000000000 {
            1000000000
        } else if size > 10 * 1000000 {
            1000000
        } else if size > 10 * 1000 {
            1000
        } else {
            1
        }
    } else {
        if size > 10 * 1099511627776 {
            1099511627776
        } else if size > 10 * 1073741824 {
            1073741824
        } else if size > 10 * 1048576 {
            1048576
        } else if size > 10 * 1024 {
            1024
        } else {
            1
        }
    }
}

/// The unit letter that belongs to a divisor of the active table.
pub open spec fn spec_tier_unit(d: u64, si: bool) -> char {
    if si {
        if d == 1000 {
            'K'
        } else if d == 1000000 {
            'M'
        } else if d == 1000000000 {
            'G'
        } else {
            'T'
        }
    } else {
        if d == 1024 {
            'K'
        } else if d == 1048576 {
            'M'
        } else if d == 1073741824 {
            'G'
        } else {
            'T'
        }
    }
}

/// The integer human mode displays for a size.
pub open spec fn spec_human_value(size: u64, si: bool) -> int {
    size as int / spec_human_divisor(size, si) as int
}

/// The unit letter human mode displays for a size.
pub open spec fn spec_human_unit(size: u64, si: bool) -> char {
    if spec_human_divisor(size, si) == 1 {
        'B'
    } else {
        spec_tier_unit(spec_human_divisor(size, si), si)
    }
}

/// The integer any mode displays for a size: the raw size in byte mode, the
/// size over the fixed divisor in the explicit modes, the adaptive quotient in
/// human mode. Division truncates toward zero.
pub open spec fn spec_value(mode: SizeMode, si: bool, size: u64) -> int {
    match mode {
        SizeMode::Bytes => size as int,
        SizeMode::Human => spec_human_value(size, si),
        _ => size as int / spec_divisor(mode, si) as int,
    }
}

/// The unit suffix any mode displays: only human mode has one.
pub open spec fn spec_unit(mode: SizeMode, si: bool, size: u64) -> Option<char> {
    match mode {
        SizeMode::Human => Some(spec_human_unit(size, si)),
        _ => None,
    }
}

/// Relates an executable unit suffix to its one-letter model.
pub open spec fn unit_matches(u: Option<&str>, c: Option<char>) -> bool {
    match u {
        Some(s) => c is Some && s@ == seq![c.unwrap()],
        None => c is None,
    }
}

/// The decimal digit character for a value below ten.
pub open spec fn digit_char(d: nat) -> char {
    if d == 0 {
        '0'
    } else if d == 1 {
        '1'
    } else if d == 2 {
        '2'
    } else if d == 3 {
        '3'
    } else if d == 4 {
        '4'
    } else if d == 5 {
        '5'
    } else if d == 6 {
        '6'
    } else if d == 7 {
        '7'
    } else if d == 8 {
        '8'
    } else {
        '9'
    }
}

/// The decimal rendering of a number: most significant digit first, no sign,
/// no leading zeroes except for the number zero itself.
pub open spec fn dec_digits(n: nat) -> Seq<char>
    decreases n,
{
    if n < 10 {
        seq![digit_char(n)]
    } else {
        dec_digits(n / 10) + seq![digit_char(n % 10)]
    }
}

fn digit_str(d: u64) -> (r: &'static str)
    requires
        d < 10,
    ensures
        r@ == seq![digit_char(d as nat)],
{
    proof {
        reveal_strlit("0");
        reveal_strlit("1");
        reveal_strlit("2");
        reveal_strlit("3");
        reveal_strlit("4");
        reveal_strlit("5");
        reveal_strlit("6");
        reveal_strlit("7");
        reveal_strlit("8");
        reveal_strlit("9");
    }
    let r: &'static str = if d == 0 {
        "0"
    } else if d == 1 {
        "1"
    } else if d == 2 {
        "2"
    } else if d == 3 {
        "3"
    } else if d == 4 {
        "4"
    } else if d == 5 {
        "5"
    } else if d == 6 {
        "6"
    } else if d == 7 {
        "7"
    } else if d == 8 {
        "8"
    } else {
        "9"
    };
    proof {
        assert(r@ =~= seq![digit_char(d as nat)]);
    }
    r
}

fn push_decimal(n: u64, out: &mut String)
    ensures
        final(out)@ == old(out)@ + dec_digits(n as nat),
    decreases n,
{
    if n >= 10 {
        push_decimal(n / 10, out);
    }
    let d = digit_str(n % 10);
    out.append(d);
    proof {
        if n >= 10 {
            assert(final(out)@ =~= old(out)@ + dec_digits(n as nat));
        } else {
            assert(final(out)@ =~= old(out)@ + dec_digits(n as nat));
        }
    }
}

/// The decimal rendering of a number as an owned string.
pub fn u64_to_string(n: u64) -> (r: String)
    ensures
        r@ == dec_digits(n as nat),
{
    let mut s = String::new();
    push_decimal(n, &mut s);
    proof {
        assert(s@ =~= dec_digits(n as nat));
    }
    s
}

/// A byte total together with the formatter that will render it.
pub struct FormattedSize<'s> {
    pub size: u64,
    pub formatter: &'s SizeFormatter,
}

/// The full rendering of a size under a mode: the decimal value, immediately
/// followed by the unit letter when the mode has one.
pub open spec fn spec_rendered(mode: SizeMode, si: bool, size: u64) -> Seq<char> {
    dec_digits(spec_value(mode, si, size) as nat) + match spec_unit(mode, si, size) {
        Some(c) => seq![c],
        None => Seq::<char>::empty(),
    }
}

impl<'s> FormattedSize<'s> {
    /// Renders the held size with the held formatter.
    pub fn render(&self) -> (r: String)
        ensures
            r@ == spec_rendered(self.formatter.mode, self.formatter.si, self.size),
    {
        let (base, unit) = self.formatter.get_parts(self.size);
        let mut s = u64_to_string(base);
        match unit {
            Some(u) => {
                s.append(u);
            },
            None => {},
        }
        proof {
            assert(s@ =~= spec_rendered(self.formatter.mode, self.formatter.si, self.size));
        }
        s
    }
}

/// The display policy: a size mode plus the SI (powers of ten) flag.
#[derive(Clone, Copy, Debug, PartialEq, Eq, Structural)]
pub struct SizeFormatter {
    pub mode: SizeMode,
    pub si: bool,
}

impl SizeFormatter {
    /// Divides by a fixed divisor; used by the explicit kilo/mega/giga modes.
    pub fn get_parts_divisor(&self, size: u64, divisor: u64) -> (r: (u64, Option<&'static str>))
        requires
            divisor > 0,
        ensures
            r.0 == size as int / divisor as int,
            r.1 is None,
    {
        (size / divisor, None)
    }

    /// Adaptive rendering: picks the largest unit whose divisor the size
    /// strictly exceeds tenfold, falling back to plain bytes.
    pub fn get_parts_human(&self, size: u64) -> (r: (u64, Option<&'static str>))
        ensures
            r.0 == spec_human_value(size, self.si),
            unit_matches(r.1, Some(spec_human_unit(size, self.si))),
    {
        proof {
            reveal_strlit("B");
            reveal_strlit("K");
            reveal_strlit("M");
            reveal_strlit("G");
            reveal_strlit("T");
        }
        let r: (u64, Option<&'static str>) = if self.si {
            if size > 10 * 1000000000000 {
                (size / 1000000000000, Some("T"))
            } else if size > 10 * 1000000000 {
                (size / 1000000000, Some("G"))
            } else if size > 10 * 1000000 {
                (size / 1000000, Some("M"))
            } else if size > 10 * 1000 {
                (size / 1000, Some("K"))
            } else {
                (size, Some("B"))
            }
        } else {
            if size > 10 * 1099511627776 {
                (size / 1099511627776, Some("T"))
            } else if size > 10 * 1073741824 {
                (size / 1073741824, Some("G"))
            } else if size > 10 * 1048576 {
                (size / 1048576, Some("M"))
            } else if size > 10 * 1024 {
                (size / 1024, Some("K"))
            } else {
                (size, Some("B"))
            }
        };
        proof {
            assert(r.1.unwrap()@ =~= seq![spec_human_unit(size, self.si)]);
        }
        r
    }

    /// The displayed (integer, unit) pair for a size: a pure function of the
    /// size, the mode and the SI flag.
    pub fn get_parts(&self, size: u64) -> (r: (u64, Option<&'static str>))
        ensures
            r.0 == spec_value(self.mode, self.si, size),
            unit_matches(r.1, spec_unit(self.mode, self.si, size)),
    {
        match (&self.mode, self.si) {
            (SizeMode::Bytes, _) => (size, None),
            (SizeMode::Kilobytes, false) => self.get_parts_divisor(size, 1024),
            (SizeMode::Kilobytes, true) => self.get_parts_divisor(size, 1000),
            (SizeMode::Megabytes, false) => self.get_parts_divisor(size, 1048576),
            (SizeMode::Megabytes, true) => self.get_parts_divisor(size, 1000000),
            (SizeMode::Gigabytes, false) => self.get_parts_divisor(size, 1073741824),
            (SizeMode::Gigabytes, true) => self.get_parts_divisor(size, 1000000000),
            (SizeMode::Human, _) => self.get_parts_human(size),
        }
    }

    /// Pairs a size with this formatter for later rendering.
    pub fn wrap<'s>(&'s self, size: u64) -> (r: FormattedSize<'s>)
        ensures
            r.size == size,
            r.formatter == self,
    {
        FormattedSize { size, formatter: self }
    }
}

/// Human mode's strict threshold, at every divisor of the active table: a size
/// of exactly ten times the divisor still renders at the tier below, while one
/// byte more renders at that divisor with a displayed value of ten.
pub proof fn lemma_human_threshold(d: u64, si: bool)
    requires
        si ==> d == 1000 || d == 1000000 || d == 1000000000 || d == 1000000000000,
        !si ==> d == 1024 || d == 1048576 || d == 1073741824 || d == 1099511627776,
    ensures
        spec_human_divisor((10 * d) as u64, si) < d,
        spec_human_divisor((10 * d + 1) as u64, si) == d,
        spec_human_value((10 * d + 1) as u64, si) == 10,
        spec_human_unit((10 * d + 1) as u64, si) == spec_tier_unit(d, si),
{
    assert((10 * d + 1) as int / d as int == 10) by (nonlinear_arith)
        requires d >= 1000;
}

} // verus!
