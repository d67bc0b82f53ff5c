//! Integers that carry the inclusive range `[MIN, MAX]` they must lie in,
//! so that a configuration value is checked where it is read.

use vstd::prelude::*;
use crate::text::{trim_of, trim};

verus! {

/// Why a number could not be read into a range type.
#[derive(Clone, Copy, Debug, PartialEq, Eq, Structural)]
pub enum RangeError {
    /// The number does not fit in the range type's integer type.
    NotRepresentable,
    /// The number lies outside `[MIN, MAX]`.
    OutOfBounds,
    /// The text is not a number.
    Parse,
}

/// What `check_or_set_default` returns: `arg` when it is present, fits in
/// `[lo, hi]` (the integer type) and in `[min, max]`; `fallback` otherwise.
pub open spec fn checked_or(arg: Option<i128>, lo: int, hi: int, min: int, max: int, fallback: int) -> int {
    match arg {
        Some(x) => if lo <= x <= hi && min <= x <= max {
            x as int
        } else {
            fallback
        },
        None => fallback,
    }
}

/// The value of an ASCII digit or letter (`a`/`A` is ten, `z`/`Z` is 35);
/// 36 for any other character.
pub open spec fn digit_value(c: char) -> int {
    if '0' <= c <= '9' {
        c as int - '0' as int
    } else if 'a' <= c <= 'z' {
        c as int - 'a' as int + 10
    } else if 'A' <= c <= 'Z' {
        c as int - 'A' as int + 10
    } else {
        36
    }
}

/// The number the digits stand for in `radix`, or `None` when one of them
/// is not a digit of the radix.
pub open spec fn digits_value(ds: Seq<char>, radix: int) -> Option<int>
    decreases ds.len(),
{
    if ds.len() == 0 {
        Some(0)
    } else {
        match digits_value(ds.drop_last(), radix) {
            Some(v) => if digit_value(ds.last()) < radix {
                Some(v * radix + digit_value(ds.last()))
            } else {
                None
            },
            None => None,
        }
    }
}

/// The value `i128::from_str_radix` reads from `digits` in `radix`: an
/// optional `+` or `-`, then at least one digit of the radix, the whole
/// within the range of `i128`.
pub open spec fn radix_value(digits: Seq<char>, radix: u32) -> Option<int> {
    let negative = digits.len() > 0 && digits[0] == '-';
    let body = if digits.len() > 0 && (digits[0] == '-' || digits[0] == '+') {
        digits.drop_first()
    } else {
        digits
    };
    if body.len() == 0 {
        None
    } else {
        match digits_value(body, radix as int) {
            Some(v) => {
                let n = if negative {
                    -v
                } else {
                    v
                };
                if i128::MIN <= n <= i128::MAX {
                    Some(n)
                } else {
                    None
                }
            },
            None => None,
        }
    }
}

/// `i128::from_str_radix`: reads an optional sign and digits of the radix,
/// as [`radix_value`] writes out its documented rule.
#[verifier::external_body]
fn from_str_radix(digits: &str, radix: u32) -> (r: Option<i128>)
    requires
        2 <= radix <= 36,
    ensures
        match radix_value(digits@, radix) {
            Some(n) => r matches Some(x) && x as int == n,
            None => r is None,
        },
{
    i128::from_str_radix(digits, radix).ok()
}

/// The number a trimmed text stands for: after `Oo`, `Ob` or `Ox` the rest
/// in octal, binary or hexadecimal, otherwise the whole in decimal.
pub open spec fn text_number(t: Seq<char>) -> Option<int> {
    if t.len() >= 2 && t[0] == 'O' && t[1] == 'o' {
        radix_value(t.skip(2), 8)
    } else if t.len() >= 2 && t[0] == 'O' && t[1] == 'b' {
        radix_value(t.skip(2), 2)
    } else if t.len() >= 2 && t[0] == 'O' && t[1] == 'x' {
        radix_value(t.skip(2), 16)
    } else {
        radix_value(t, 10)
    }
}

/// Reads a number from text as [`text_number`] of the trimmed text.
pub fn parse_number(v: &str) -> (r: Option<i128>)
    ensures
        match text_number(trim_of(v@)) {
            Some(n) => r matches Some(x) && x as int == n,
            None => r is None,
        },
{
    let t = trim(v);
    let n = t.unicode_len();
    if n >= 2 && t.get_char(0) == 'O' {
        let c = t.get_char(1);
        if c == 'o' || c == 'b' || c == 'x' {
            let rest = t.substring_char(2, n);
            assert(rest@ =~= t@.skip(2));
            if c == 'o' {
                return from_str_radix(rest, 8);
            } else if c == 'b' {
                return from_str_radix(rest, 2);
            } else {
                return from_str_radix(rest, 16);
            }
        }
    }
    from_str_radix(t, 10)
}

/// A `u8` that lies in `[MIN, MAX]`.
#[derive(Clone, Copy, Debug, PartialEq, Eq, PartialOrd, Ord, Hash)]
pub struct U8Range<const MIN: u8, const MAX: u8> {
    data: u8,
}

impl<const MIN: u8, const MAX: u8> U8Range<MIN, MAX> {
    #[verifier::type_invariant]
    spec fn in_range(self) -> bool {
        MIN <= self.data <= MAX
    }

    /// The number held.
    pub closed spec fn value(self) -> u8 {
        self.data
    }

    /// The number held, which lies in `[MIN, MAX]`.
    pub fn get(&self) -> (r: u8)
        ensures
            r == self.value(),
            MIN <= r <= MAX,
    {
        proof {
            use_type_invariant(self);
        }
        self.data
    }

    /// The number, if it lies in `[MIN, MAX]`; otherwise the bounds.
    pub fn try_from(value: u8) -> (r: Result<Self, (u8, u8)>)
        ensures
            (MIN <= value <= MAX) ==> (r matches Ok(x) && x.value() == value),
            !(MIN <= value <= MAX) ==> r == Err::<Self, (u8, u8)>((MIN, MAX)),
    {
        if MIN <= value && value <= MAX {
            Ok(U8Range { data: value })
        } else {
            Err((MIN, MAX))
        }
    }

    /// `arg` when it is present and, converted to `u8`, lies in
    /// `[MIN, MAX]`; otherwise the number held. Meant to check user input
    /// against a known good value from a configuration.
    pub fn check_or_set_default(&self, arg: Option<i128>) -> (r: u8)
        ensures
            r == checked_or(arg, u8::MIN as int, u8::MAX as int, MIN as int, MAX as int,
                self.value() as int),
    {
        match arg {
            Some(x) => {
                if u8::MIN as i128 <= x && x <= u8::MAX as i128 {
                    let y = x as u8;
                    if y >= MIN && y <= MAX {
                        y
                    } else {
                        self.data
                    }
                } else {
                    self.data
                }
            },
            None => self.data,
        }
    }

    /// Reads a number of any integer type: it must fit in `u8` and lie
    /// in `[MIN, MAX]`.
    pub fn from_abstract(arg: i128) -> (r: Result<Self, RangeError>)
        ensures
            !(u8::MIN as int <= arg <= u8::MAX as int) ==> r matches Err(RangeError::NotRepresentable),
            (u8::MIN as int <= arg <= u8::MAX as int) && !(MIN as int <= arg <= MAX as int)
                ==> r matches Err(RangeError::OutOfBounds),
            (MIN as int <= arg <= MAX as int) ==> (r matches Ok(x) && x.value() as int == arg),
    {
        if !(u8::MIN as i128 <= arg && arg <= u8::MAX as i128) {
            return Err(RangeError::NotRepresentable);
        }
        let data = arg as u8;
        if MIN <= data && data <= MAX {
            Ok(U8Range { data })
        } else {
            Err(RangeError::OutOfBounds)
        }
    }

    /// Reads a number from text, after trimming white space: `Oo`, `Ob` and
    /// `Ox` introduce octal, binary and hexadecimal digits, anything else is
    /// decimal; the number must then pass [`Self::from_abstract`].
    pub fn from_text(v: &str) -> (r: Result<Self, RangeError>)
        ensures
            match text_number(trim_of(v@)) {
                None => r matches Err(RangeError::Parse),
                Some(n) => match Self::abstract_result(n) {
                    Ok(x) => r matches Ok(y) && y.value() as int == x,
                    Err(e) => r == Err::<Self, RangeError>(e),
                },
            },
    {
        match parse_number(v) {
            Some(x) => Self::from_abstract(x),
            None => Err(RangeError::Parse),
        }
    }

    /// What [`Self::from_abstract`] gives for a number: the number, or why
    /// it is refused.
    pub open spec fn abstract_result(n: int) -> Result<int, RangeError> {
        if !(u8::MIN as int <= n <= u8::MAX as int) {
            Err(RangeError::NotRepresentable)
        } else if !(MIN as int <= n <= MAX as int) {
            Err(RangeError::OutOfBounds)
        } else {
            Ok(n)
        }
    }
}

/// A `u16` that lies in `[MIN, MAX]`.
#[derive(Clone, Copy, Debug, PartialEq, Eq, PartialOrd, Ord, Hash)]
pub struct U16Range<const MIN: u16, const MAX: u16> {
    data: u16,
}

impl<const MIN: u16, const MAX: u16> U16Range<MIN, MAX> {
    #[verifier::type_invariant]
    spec fn in_range(self) -> bool {
        MIN <= self.data <= MAX
    }

    /// The number held.
    pub closed spec fn value(self) -> u16 {
        self.data
    }

    /// The number held, which lies in `[MIN, MAX]`.
    pub fn get(&self) -> (r: u16)
        ensures
            r == self.value(),
            MIN <= r <= MAX,
    {
        proof {
            use_type_invariant(self);
        }
        self.data
    }

    /// The number, if it lies in `[MIN, MAX]`; otherwise the bounds.
    pub fn try_from(value: u16) -> (r: Result<Self, (u16, u16)>)
        ensures
            (MIN <= value <= MAX) ==> (r matches Ok(x) && x.value() == value),
            !(MIN <= value <= MAX) ==> r == Err::<Self, (u16, u16)>((MIN, MAX)),
    {
        if MIN <= value && value <= MAX {
            Ok(U16Range { data: value })
        } else {
            Err((MIN, MAX))
        }
    }

    /// `arg` when it is present and, converted to `u16`, lies in
    /// `[MIN, MAX]`; otherwise the number held. Meant to check user input
    /// against a known good value from a configuration.
    pub fn check_or_set_default(&self, arg: Option<i128>) -> (r: u16)
        ensures
            r == checked_or(arg, u16::MIN as int, u16::MAX as int, MIN as int, MAX as int,
                self.value() as int),
    {
        match arg {
            Some(x) => {
                if u16::MIN as i128 <= x && x <= u16::MAX as i128 {
                    let y = x as u16;
                    if y >= MIN && y <= MAX {
                        y
                    } else {
                        self.data
                    }
                } else {
                    self.data
                }
            },
            None => self.data,
        }
    }

    /// Reads a number of any integer type: it must fit in `u16` and lie
    /// in `[MIN, MAX]`.
    pub fn from_abstract(arg: i128) -> (r: Result<Self, RangeError>)
        ensures
            !(u16::MIN as int <= arg <= u16::MAX as int) ==> r matches Err(RangeError::NotRepresentable),
            (u16::MIN as int <= arg <= u16::MAX as int) && !(MIN as int <= arg <= MAX as int)
                ==> r matches Err(RangeError::OutOfBounds),
            (MIN as int <= arg <= MAX as int) ==> (r matches Ok(x) && x.value() as int == arg),
    {
        if !(u16::MIN as i128 <= arg && arg <= u16::MAX as i128) {
            return Err(RangeError::NotRepresentable);
        }
        let data = arg as u16;
        if MIN <= data && data <= MAX {
            Ok(U16Range { data })
        } else {
            Err(RangeError::OutOfBounds)
        }
    }

    /// Reads a number from text, after trimming white space: `Oo`, `Ob` and
    /// `Ox` introduce octal, binary and hexadecimal digits, anything else is
    /// decimal; the number must then pass [`Self::from_abstract`].
    pub fn from_text(v: &str) -> (r: Result<Self, RangeError>)
        ensures
            match text_number(trim_of(v@)) {
                None => r matches Err(RangeError::Parse),
                Some(n) => match Self::abstract_result(n) {
                    Ok(x) => r matches Ok(y) && y.value() as int == x,
                    Err(e) => r == Err::<Self, RangeError>(e),
                },
            },
    {
        match parse_number(v) {
            Some(x) => Self::from_abstract(x),
            None => Err(RangeError::Parse),
        }
    }

    /// What [`Self::from_abstract`] gives for a number: the number, or why
    /// it is refused.
    pub open spec fn abstract_result(n: int) -> Result<int, RangeError> {
        if !(u16::MIN as int <= n <= u16::MAX as int) {
            Err(RangeError::NotRepresentable)
        } else if !(MIN as int <= n <= MAX as int) {
            Err(RangeError::OutOfBounds)
        } else {
            Ok(n)
        }
    }
}

/// A `u32` that lies in `[MIN, MAX]`.
#[derive(Clone, Copy, Debug, PartialEq, Eq, PartialOrd, Ord, Hash)]
pub struct U32Range<const MIN: u32, const MAX: u32> {
    data: u32,
}

impl<const MIN: u32, const MAX: u32> U32Range<MIN, MAX> {
    #[verifier::type_invariant]
    spec fn in_range(self) -> bool {
        MIN <= self.data <= MAX
    }

    /// The number held.
    pub closed spec fn value(self) -> u32 {
        self.data
    }

    /// The number held, which lies in `[MIN, MAX]`.
    pub fn get(&self) -> (r: u32)
        ensures
            r == self.value(),
            MIN <= r <= MAX,
    {
        proof {
            use_type_invariant(self);
        }
        self.data
    }

    /// The number, if it lies in `[MIN, MAX]`; otherwise the bounds.
    pub fn try_from(value: u32) -> (r: Result<Self, (u32, u32)>)
        ensures
            (MIN <= value <= MAX) ==> (r matches Ok(x) && x.value() == value),
            !(MIN <= value <= MAX) ==> r == Err::<Self, (u32, u32)>((MIN, MAX)),
    {
        if MIN <= value && value <= MAX {
            Ok(U32Range { data: value })
        } else {
            Err((MIN, MAX))
        }
    }

    /// `arg` when it is present and, converted to `u32`, lies in
    /// `[MIN, MAX]`; otherwise the number held. Meant to check user input
    /// against a known good value from a configuration.
    pub fn check_or_set_default(&self, arg: Option<i128>) -> (r: u32)
        ensures
            r == checked_or(arg, u32::MIN as int, u32::MAX as int, MIN as int, MAX as int,
                self.value() as int),
    {
        match arg {
            Some(x) => {
                if u32::MIN as i128 <= x && x <= u32::MAX as i128 {
                    let y = x as u32;
                    if y >= MIN && y <= MAX {
                        y
                    } else {
                        self.data
                    }
                } else {
                    self.data
                }
            },
            None => self.data,
        }
    }

    /// Reads a number of any integer type: it must fit in `u32` and lie
    /// in `[MIN, MAX]`.
    pub fn from_abstract(arg: i128) -> (r: Result<Self, RangeError>)
        ensures
            !(u32::MIN as int <= arg <= u32::MAX as int) ==> r matches Err(RangeError::NotRepresentable),
            (u32::MIN as int <= arg <= u32::MAX as int) && !(MIN as int <= arg <= MAX as int)
                ==> r matches Err(RangeError::OutOfBounds),
            (MIN as int <= arg <= MAX as int) ==> (r matches Ok(x) && x.value() as int == arg),
    {
        if !(u32::MIN as i128 <= arg && arg <= u32::MAX as i128) {
            return Err(RangeError::NotRepresentable);
        }
        let data = arg as u32;
        if MIN <= data && data <= MAX {
            Ok(U32Range { data })
        } else {
            Err(RangeError::OutOfBounds)
        }
    }

    /// Reads a number from text, after trimming white space: `Oo`, `Ob` and
    /// `Ox` introduce octal, binary and hexadecimal digits, anything else is
    /// decimal; the number must then pass [`Self::from_abstract`].
    pub fn from_text(v: &str) -> (r: Result<Self, RangeError>)
        ensures
            match text_number(trim_of(v@)) {
                None => r matches Err(RangeError::Parse),
                Some(n) => match Self::abstract_result(n) {
                    Ok(x) => r matches Ok(y) && y.value() as int == x,
                    Err(e) => r == Err::<Self, RangeError>(e),
                },
            },
    {
        match parse_number(v) {
            Some(x) => Self::from_abstract(x),
            None => Err(RangeError::Parse),
        }
    }

    /// What [`Self::from_abstract`] gives for a number: the number, or why
    /// it is refused.
    pub open spec fn abstract_result(n: int) -> Result<int, RangeError> {
        if !(u32::MIN as int <= n <= u32::MAX as int) {
            Err(RangeError::NotRepresentable)
        } else if !(MIN as int <= n <= MAX as int) {
            Err(RangeError::OutOfBounds)
        } else {
            Ok(n)
        }
    }
}

/// A `u64` that lies in `[MIN, MAX]`.
#[derive(Clone, Copy, Debug, PartialEq, Eq, PartialOrd, Ord, Hash)]
pub struct U64Range<const MIN: u64, const MAX: u64> {
    data: u64,
}

impl<const MIN: u64, const MAX: u64> U64Range<MIN, MAX> {
    #[verifier::type_invariant]
    spec fn in_range(self) -> bool {
        MIN <= self.data <= MAX
    }

    /// The number held.
    pub closed spec fn value(self) -> u64 {
        self.data
    }

    /// The number held, which lies in `[MIN, MAX]`.
    pub fn get(&self) -> (r: u64)
        ensures
            r == self.value(),
            MIN <= r <= MAX,
    {
        proof {
            use_type_invariant(self);
        }
        self.data
    }

    /// The number, if it lies in `[MIN, MAX]`; otherwise the bounds.
    pub fn try_from(value: u64) -> (r: Result<Self, (u64, u64)>)
        ensures
            (MIN <= value <= MAX) ==> (r matches Ok(x) && x.value() == value),
            !(MIN <= value <= MAX) ==> r == Err::<Self, (u64, u64)>((MIN, MAX)),
    {
        if MIN <= value && value <= MAX {
            Ok(U64Range { data: value })
        } else {
            Err((MIN, MAX))
        }
    }

    /// `arg` when it is present and, converted to `u64`, lies in
    /// `[MIN, MAX]`; otherwise the number held. Meant to check user input
    /// against a known good value from a configuration.
    pub fn check_or_set_default(&self, arg: Option<i128>) -> (r: u64)
        ensures
            r == checked_or(arg, u64::MIN as int, u64::MAX as int, MIN as int, MAX as int,
                self.value() as int),
    {
        match arg {
            Some(x) => {
                if u64::MIN as i128 <= x && x <= u64::MAX as i128 {
                    let y = x as u64;
                    if y >= MIN && y <= MAX {
                        y
                    } else {
                        self.data
                    }
                } else {
                    self.data
                }
            },
            None => self.data,
        }
    }

    /// Reads a number of any integer type: it must fit in `u64` and lie
    /// in `[MIN, MAX]`.
    pub fn from_abstract(arg: i128) -> (r: Result<Self, RangeError>)
        ensures
            !(u64::MIN as int <= arg <= u64::MAX as int) ==> r matches Err(RangeError::NotRepresentable),
            (u64::MIN as int <= arg <= u64::MAX as int) && !(MIN as int <= arg <= MAX as int)
                ==> r matches Err(RangeError::OutOfBounds),
            (MIN as int <= arg <= MAX as int) ==> (r matches Ok(x) && x.value() as int == arg),
    {
        if !(u64::MIN as i128 <= arg && arg <= u64::MAX as i128) {
            return Err(RangeError::NotRepresentable);
        }
        let data = arg as u64;
        if MIN <= data && data <= MAX {
            Ok(U64Range { data })
        } else {
            Err(RangeError::OutOfBounds)
        }
    }

    /// Reads a number from text, after trimming white space: `Oo`, `Ob` and
    /// `Ox` introduce octal, binary and hexadecimal digits, anything else is
    /// decimal; the number must then pass [`Self::from_abstract`].
    pub fn from_text(v: &str) -> (r: Result<Self, RangeError>)
        ensures
            match text_number(trim_of(v@)) {
                None => r matches Err(RangeError::Parse),
                Some(n) => match Self::abstract_result(n) {
                    Ok(x) => r matches Ok(y) && y.value() as int == x,
                    Err(e) => r == Err::<Self, RangeError>(e),
                },
            },
    {
        match parse_number(v) {
            Some(x) => Self::from_abstract(x),
            None => Err(RangeError::Parse),
        }
    }

    /// What [`Self::from_abstract`] gives for a number: the number, or why
    /// it is refused.
    pub open spec fn abstract_result(n: int) -> Result<int, RangeError> {
        if !(u64::MIN as int <= n <= u64::MAX as int) {
            Err(RangeError::NotRepresentable)
        } else if !(MIN as int <= n <= MAX as int) {
            Err(RangeError::OutOfBounds)
        } else {
            Ok(n)
        }
    }
}

} // verus!
