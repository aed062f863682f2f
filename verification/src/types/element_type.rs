use crate::text::{decimal, decimal_string, push_decimal};
use vstd::prelude::*;

verus! {

/// A player's position code as the FPL API sends it: an integer in `1..=4`.
#[derive(Debug)]
pub struct ElementType(u8);

/// Whether `n` is a position code.
pub open spec fn is_element_type_number(n: int) -> bool {
    1 <= n <= 4
}

/// The name of the position with the given code.
pub open spec fn position_name(n: int) -> Seq<char> {
    if n == 1 {
        "Goalkeeper"@
    } else if n == 2 {
        "Defender"@
    } else if n == 3 {
        "Midfielder"@
    } else if n == 4 {
        "Attacker"@
    } else {
        "Unknown"@
    }
}

impl ElementType {
    /// The position code.
    pub closed spec fn spec_value(self) -> u8 {
        self.0
    }

    /// Every position code lies in `1..=4`.
    #[verifier::type_invariant]
    pub closed spec fn wf(self) -> bool {
        is_element_type_number(self.0 as int)
    }

    pub fn new(position: u8) -> (res: Option<Self>)
        ensures
            res is Some <==> is_element_type_number(position as int),
            res matches Some(e) ==> e.spec_value() == position,
    {
        if 1 <= position && position <= 4 {
            Some(ElementType(position))
        } else {
            None
        }
    }

    pub fn value(&self) -> (v: u8)
        ensures
            v == self.spec_value(),
            is_element_type_number(v as int),
    {
        proof { use_type_invariant(self); }
        self.0
    }

    pub fn to_position(&self) -> (s: &str)
        ensures
            s@ == position_name(self.spec_value() as int),
    {
        match self.value() {
            1 => "Goalkeeper",
            2 => "Defender",
            3 => "Midfielder",
            4 => "Attacker",
            _ => "Unknown",
        }
    }

    /// The text that `Display` gives: the position code.
    pub fn to_string(&self) -> (s: String)
        ensures
            s@ == decimal(self.spec_value() as int),
    {
        decimal_string(self.value() as i64)
    }
}

/// The message with which a code outside `1..=4` is refused.
pub open spec fn element_type_error_message(value: u8) -> Seq<char> {
    "Element type must be between 1 and 4, got "@ + decimal(value as int)
}

impl TryFrom<u8> for ElementType {
    type Error = String;

    fn try_from(value: u8) -> (res: Result<Self, Self::Error>)
        ensures
            is_element_type_number(value as int) ==> (res matches Ok(e) && e.spec_value() == value),
            !is_element_type_number(value as int) ==> (res matches Err(m) && m@
                == element_type_error_message(value)),
    {
        match ElementType::new(value) {
            Some(e) => Ok(e),
            None => {
                let mut m = String::from_str("Element type must be between 1 and 4, got ");
                push_decimal(&mut m, value as i64);
                Err(m)
            },
        }
    }
}

/// The result of `try_from` holds an error text, which has no spec constructor, so this
/// impl does not claim the generic conversion law; `try_from`'s own `ensures` states the result.
impl vstd::std_specs::convert::TryFromSpecImpl<u8> for ElementType {
    open spec fn obeys_try_from_spec() -> bool {
        false
    }

    open spec fn try_from_spec(v: u8) -> Result<Self, Self::Error> {
        arbitrary()
    }
}

} // verus!
