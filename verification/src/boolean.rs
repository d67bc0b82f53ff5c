//! A boolean that can be read from booleans, the integers 0/1, and a
//! small vocabulary of case-insensitive words.

use vstd::prelude::*;
use crate::text::{str_eq, to_lowercase, trim, trim_of, lowercase_of, is_ascii_text, ascii_lower};

verus! {

/// Boolean type, kept as a two-variant enum so optional fields stay small.
#[derive(Clone, Copy, PartialEq, Eq, Structural, Hash, Debug, PartialOrd, Ord)]
pub enum Boolean {
    True,
    False,
}

/// The truth value a `Boolean` stands for.
pub open spec fn spec_truth(b: Boolean) -> bool {
    b == Boolean::True
}

/// The `Boolean` that stands for a truth value.
pub open spec fn spec_from_bool(b: bool) -> Boolean {
    if b { Boolean::True } else { Boolean::False }
}

impl Default for Boolean {
    fn default() -> (r: Self)
        ensures
            r == Boolean::False,
    {
        Boolean::False
    }
}

impl Boolean {
    /// Converts to a boolean.
    pub fn as_bool(&self) -> (r: bool)
        ensures
            r == spec_truth(*self),
    {
        match self {
            Boolean::True => true,
            Boolean::False => false,
        }
    }

    /// Converts to a boolean.
    pub fn to_bool(&self) -> (r: bool)
        ensures
            r == spec_truth(*self),
    {
        match self {
            Boolean::True => true,
            Boolean::False => false,
        }
    }

    /// Builds the `Boolean` for a truth value.
    pub fn from_bool(b: bool) -> (r: Boolean)
        ensures
            r == spec_from_bool(b),
    {
        if b {
            Boolean::True
        } else {
            Boolean::False
        }
    }
}

/// Why a value could not be read as a `Boolean`.
#[derive(Clone, Debug, PartialEq, Eq)]
pub enum BooleanError {
    /// An integer other than 0 and 1.
    InvalidInteger,
    /// A string that is none of the words; carries the string as given.
    InvalidText(String),
}

/// The truth value an integer stands for: 1 is true, 0 is false.
pub open spec fn integer_truth(v: int) -> Option<Boolean> {
    if v == 1 {
        Some(Boolean::True)
    } else if v == 0 {
        Some(Boolean::False)
    } else {
        None
    }
}

/// The words read as true.
pub open spec fn is_true_word(w: Seq<char>) -> bool {
    w == "true"@ || w == "yes"@ || w == "t"@ || w == "y"@ || w == "positive"@ || w == "ack"@
}

/// The words read as false.
pub open spec fn is_false_word(w: Seq<char>) -> bool {
    w == "false"@ || w == "no"@ || w == "f"@ || w == "n"@ || w == "negative"@ || w == "nack"@
}

/// The truth value a (lower-case, trimmed) word stands for.
pub open spec fn word_truth(w: Seq<char>) -> Option<Boolean> {
    if is_true_word(w) {
        Some(Boolean::True)
    } else if is_false_word(w) {
        Some(Boolean::False)
    } else {
        None
    }
}

impl Boolean {
    /// Reads a signed integer: 1 is true, 0 is false, anything else is
    /// refused.
    pub fn from_i64(value: i64) -> (r: Result<Boolean, BooleanError>)
        ensures
            match integer_truth(value as int) {
                Some(b) => r == Ok::<Boolean, BooleanError>(b),
                None => r matches Err(BooleanError::InvalidInteger),
            },
    {
        if value == 1 {
            Ok(Boolean::True)
        } else if value == 0 {
            Ok(Boolean::False)
        } else {
            Err(BooleanError::InvalidInteger)
        }
    }

    /// Reads an unsigned integer: 1 is true, 0 is false, anything else is
    /// refused.
    pub fn from_u64(value: u64) -> (r: Result<Boolean, BooleanError>)
        ensures
            match integer_truth(value as int) {
                Some(b) => r == Ok::<Boolean, BooleanError>(b),
                None => r matches Err(BooleanError::InvalidInteger),
            },
    {
        if value == 1 {
            Ok(Boolean::True)
        } else if value == 0 {
            Ok(Boolean::False)
        } else {
            Err(BooleanError::InvalidInteger)
        }
    }

    /// Reads a 128-bit signed integer: 1 is true, 0 is false, anything else
    /// is refused.
    pub fn from_i128(value: i128) -> (r: Result<Boolean, BooleanError>)
        ensures
            match integer_truth(value as int) {
                Some(b) => r == Ok::<Boolean, BooleanError>(b),
                None => r matches Err(BooleanError::InvalidInteger),
            },
    {
        if value == 1 {
            Ok(Boolean::True)
        } else if value == 0 {
            Ok(Boolean::False)
        } else {
            Err(BooleanError::InvalidInteger)
        }
    }

    /// Reads a 128-bit unsigned integer: 1 is true, 0 is false, anything
    /// else is refused.
    pub fn from_u128(value: u128) -> (r: Result<Boolean, BooleanError>)
        ensures
            match integer_truth(value as int) {
                Some(b) => r == Ok::<Boolean, BooleanError>(b),
                None => r matches Err(BooleanError::InvalidInteger),
            },
    {
        if value == 1 {
            Ok(Boolean::True)
        } else if value == 0 {
            Ok(Boolean::False)
        } else {
            Err(BooleanError::InvalidInteger)
        }
    }

    /// The truth value of a word, matched exactly: `true`, `yes`, `t`,
    /// `y`, `positive` and `ack` are true; `false`, `no`, `f`, `n`,
    /// `negative` and `nack` are false.
    pub fn from_word(word: &str) -> (r: Option<Boolean>)
        ensures
            r == word_truth(word@),
    {
        if str_eq(word, "true") || str_eq(word, "yes") || str_eq(word, "t") || str_eq(word, "y")
            || str_eq(word, "positive") || str_eq(word, "ack") {
            Some(Boolean::True)
        } else if str_eq(word, "false") || str_eq(word, "no") || str_eq(word, "f") || str_eq(
            word,
            "n",
        ) || str_eq(word, "negative") || str_eq(word, "nack") {
            Some(Boolean::False)
        } else {
            None
        }
    }

    /// Reads a string: it is put in lower case and trimmed of white space,
    /// then read as a word by [`Boolean::from_word`]; other strings are
    /// refused, with the string as given.
    pub fn from_text(value: &str) -> (r: Result<Boolean, BooleanError>)
        ensures
            match word_truth(trim_of(lowercase_of(value@))) {
                Some(b) => r == Ok::<Boolean, BooleanError>(b),
                None => r matches Err(BooleanError::InvalidText(t)) && t@ == value@,
            },
            is_ascii_text(value@) ==> match word_truth(trim_of(ascii_lower(value@))) {
                Some(b) => r == Ok::<Boolean, BooleanError>(b),
                None => r matches Err(BooleanError::InvalidText(t)) && t@ == value@,
            },
    {
        let normalized = to_lowercase(value);
        let word = trim(normalized.as_str());
        match Boolean::from_word(word) {
            Some(b) => Ok(b),
            None => Err(BooleanError::InvalidText(value.to_owned())),
        }
    }

    /// A reference to the truth value.
    pub fn as_ref(&self) -> (r: &'static bool)
        ensures
            *r == spec_truth(*self),
    {
        if self.to_bool() {
            &true
        } else {
            &false
        }
    }

    /// Logical and of two values.
    pub fn and(self, rhs: Boolean) -> (r: bool)
        ensures
            r == (spec_truth(self) && spec_truth(rhs)),
    {
        self.to_bool() && rhs.to_bool()
    }

    /// Logical exclusive or of two values.
    pub fn xor(self, rhs: Boolean) -> (r: bool)
        ensures
            r == (spec_truth(self) != spec_truth(rhs)),
    {
        self.to_bool() ^ rhs.to_bool()
    }

    /// Logical or of two values.
    pub fn or(self, rhs: Boolean) -> (r: bool)
        ensures
            r == (spec_truth(self) || spec_truth(rhs)),
    {
        self.to_bool() || rhs.to_bool()
    }

    /// Logical negation.
    pub fn negate(self) -> (r: bool)
        ensures
            r == !spec_truth(self),
    {
        !self.to_bool()
    }
}

impl From<bool> for Boolean {
    fn from(b: bool) -> (r: Boolean) {
        Boolean::from_bool(b)
    }
}

impl vstd::std_specs::convert::FromSpecImpl<bool> for Boolean {
    open spec fn obeys_from_spec() -> bool {
        true
    }

    open spec fn from_spec(b: bool) -> Boolean {
        spec_from_bool(b)
    }
}

impl From<Boolean> for bool {
    fn from(b: Boolean) -> (r: bool) {
        b.to_bool()
    }
}

impl vstd::std_specs::convert::FromSpecImpl<Boolean> for bool {
    open spec fn obeys_from_spec() -> bool {
        true
    }

    open spec fn from_spec(b: Boolean) -> bool {
        spec_truth(b)
    }
}

impl std::ops::BitAnd<Boolean> for Boolean {
    type Output = bool;

    fn bitand(self, rhs: Boolean) -> (r: bool) {
        self.and(rhs)
    }
}

impl std::ops::BitXor<Boolean> for Boolean {
    type Output = bool;

    fn bitxor(self, rhs: Boolean) -> (r: bool) {
        self.xor(rhs)
    }
}

impl std::ops::BitOr<Boolean> for Boolean {
    type Output = bool;

    fn bitor(self, rhs: Boolean) -> (r: bool) {
        self.or(rhs)
    }
}

impl std::ops::Not for Boolean {
    type Output = bool;

    fn not(self) -> (r: bool) {
        self.negate()
    }
}

impl vstd::std_specs::ops::BitAndSpecImpl<Boolean> for Boolean {
    open spec fn obeys_bitand_spec() -> bool {
        true
    }

    open spec fn bitand_req(self, rhs: Boolean) -> bool {
        true
    }

    open spec fn bitand_spec(self, rhs: Boolean) -> bool {
        spec_truth(self) && spec_truth(rhs)
    }
}

impl vstd::std_specs::ops::BitXorSpecImpl<Boolean> for Boolean {
    open spec fn obeys_bitxor_spec() -> bool {
        true
    }

    open spec fn bitxor_req(self, rhs: Boolean) -> bool {
        true
    }

    open spec fn bitxor_spec(self, rhs: Boolean) -> bool {
        spec_truth(self) != spec_truth(rhs)
    }
}

impl vstd::std_specs::ops::BitOrSpecImpl<Boolean> for Boolean {
    open spec fn obeys_bitor_spec() -> bool {
        true
    }

    open spec fn bitor_req(self, rhs: Boolean) -> bool {
        true
    }

    open spec fn bitor_spec(self, rhs: Boolean) -> bool {
        spec_truth(self) || spec_truth(rhs)
    }
}

impl vstd::std_specs::ops::NotSpecImpl for Boolean {
    open spec fn obeys_not_spec() -> bool {
        true
    }

    open spec fn not_req(self) -> bool {
        true
    }

    open spec fn not_spec(self) -> bool {
        !spec_truth(self)
    }
}

/// Converting a truth value to a `Boolean` and back gives it back, and
/// converting a `Boolean` to its truth value and back gives it back.
pub proof fn law_boolean_round_trip(b: bool, x: Boolean)
    ensures
        spec_truth(spec_from_bool(b)) == b,
        spec_from_bool(spec_truth(x)) == x,
{
}

} // verus!
