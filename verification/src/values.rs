//! Datatypes and the typed values that raw text is read into.

use vstd::prelude::*;

verus! {

/// The datatype that a property declares for its values.
#[derive(Clone, Copy, Debug, PartialEq, Eq, Structural)]
pub enum DataType {
    /// Any text.
    String,
    /// A decimal integer that fits in 64 bits, with an optional leading `-`.
    Integer,
    /// `true` or `false`.
    Boolean,
}

/// A raw value read under a datatype.
#[derive(Debug)]
pub enum Value {
    String(String),
    Integer(i64),
    Boolean(bool),
}

/// The mathematical content of a [`Value`].
pub enum ValueView {
    String(Seq<char>),
    Integer(int),
    Boolean(bool),
}

impl View for Value {
    type V = ValueView;

    open spec fn view(&self) -> ValueView {
        match self {
            Value::String(text) => ValueView::String(text@),
            Value::Integer(number) => ValueView::Integer(*number as int),
            Value::Boolean(flag) => ValueView::Boolean(*flag),
        }
    }
}

/// Whether `c` is one of the ten ASCII digits.
pub open spec fn is_digit(c: char) -> bool {
    '0' <= c && c <= '9'
}

/// Whether `text` holds digits only.
pub open spec fn all_digits(text: Seq<char>) -> bool {
    forall|i: int| 0 <= i < text.len() ==> is_digit(#[trigger] text[i])
}

/// The number that the digit `c` stands for; 0 for any other character.
pub open spec fn digit_value(c: char) -> nat {
    if is_digit(c) {
        (c as nat - '0' as nat) as nat
    } else {
        0
    }
}

/// The number that a string of digits denotes in base ten.
pub open spec fn digits_value(digits: Seq<char>) -> nat
    decreases digits.len(),
{
    if digits.len() == 0 {
        0
    } else {
        10 * digits_value(digits.drop_last()) + digit_value(digits.last())
    }
}

/// The integer that `text` denotes: an optional `-`, then at least one digit,
/// the whole within the range of `i64`. `None` for any other text.
pub open spec fn decimal(text: Seq<char>) -> Option<int> {
    let negative = text.len() > 0 && text[0] == '-';
    let digits = if negative { text.skip(1) } else { text };
    let magnitude = digits_value(digits) as int;
    let number = if negative { -magnitude } else { magnitude };
    if digits.len() > 0 && all_digits(digits) && i64::MIN <= number <= i64::MAX {
        Some(number)
    } else {
        None
    }
}

impl DataType {
    /// What reading `raw` under this datatype gives: the typed value, or the
    /// message of the parse error.
    pub open spec fn typed(self, raw: Seq<char>) -> Result<ValueView, Seq<char>> {
        match self {
            DataType::String => Ok(ValueView::String(raw)),
            DataType::Integer => match decimal(raw) {
                Some(number) => Ok(ValueView::Integer(number)),
                None => Err("Not a valid Integer"@),
            },
            DataType::Boolean => if raw == seq!['t', 'r', 'u', 'e'] {
                Ok(ValueView::Boolean(true))
            } else if raw == seq!['f', 'a', 'l', 's', 'e'] {
                Ok(ValueView::Boolean(false))
            } else {
                Err("Not a valid Boolean"@)
            },
        }
    }

    /// The message of the parse error, where `raw` is not a value of this datatype.
    pub open spec fn parse_error(self, raw: Seq<char>) -> Option<Seq<char>> {
        match self.typed(raw) {
            Ok(_) => None,
            Err(message) => Some(message),
        }
    }
}

/// A longer string of digits denotes no smaller a number than its prefix.
proof fn lemma_digits_value_grows(digits: Seq<char>, n: int)
    requires
        0 <= n <= digits.len(),
    ensures
        digits_value(digits.take(n)) <= digits_value(digits),
    decreases digits.len(),
{
    if n == digits.len() {
        assert(digits.take(n) =~= digits);
    } else {
        lemma_digits_value_grows(digits.drop_last(), n);
        assert(digits.drop_last().take(n) =~= digits.take(n));
    }
}

/// The characters of `text`, in order.
fn chars_of(text: &str) -> (chars: Vec<char>)
    ensures
        chars@ == text@,
{
    let mut chars: Vec<char> = Vec::new();
    for c in it: text.chars()
        invariant
            chars@ == it.seq().take(it.index() as int),
            it.seq() == text@,
    {
        chars.push(c);
    }
    chars
}

/// Reads a decimal integer.
fn parse_integer(text: &Vec<char>) -> (number: Option<i64>)
    ensures
        match number {
            Some(n) => decimal(text@) == Some(n as int),
            None => decimal(text@) is None,
        },
{
    let negative = text.len() > 0 && text[0] == '-';
    let start: usize = if negative { 1 } else { 0 };
    let ghost digits = if negative { text@.skip(1) } else { text@ };
    if start == text.len() {
        return None;
    }
    let mut magnitude: u64 = 0;
    let mut i: usize = start;
    while i < text.len()
        invariant
            start <= i <= text.len(),
            negative == (text.len() > 0 && text[0] == '-'),
            start == if negative { 1usize } else { 0usize },
            digits == if negative { text@.skip(1) } else { text@ },
            forall|j: int| 0 <= j < i - start ==> is_digit(#[trigger] digits[j]),
            magnitude == digits_value(digits.take(i - start)),
            magnitude <= 0x8000_0000_0000_0000,
        decreases text.len() - i,
    {
        let c = text[i];
        if !('0' <= c && c <= '9') {
            assert(!is_digit(digits[i - start]));
            return None;
        }
        let digit: u64 = (c as u32 - '0' as u32) as u64;
        proof {
            let longer = digits.take(i - start + 1);
            assert(longer.drop_last() =~= digits.take(i - start));
            lemma_digits_value_grows(digits, i - start + 1);
        }
        if magnitude > 922_337_203_685_477_580 {
            return None;
        }
        let next: u64 = magnitude * 10 + digit;
        if next > 0x8000_0000_0000_0000 {
            return None;
        }
        magnitude = next;
        i += 1;
    }
    assert(digits.take(i - start) =~= digits);
    if negative {
        if magnitude == 0x8000_0000_0000_0000 {
            Some(i64::MIN)
        } else {
            Some(-(magnitude as i64))
        }
    } else if magnitude == 0x8000_0000_0000_0000 {
        None
    } else {
        Some(magnitude as i64)
    }
}

/// Reads `true` or `false`.
fn parse_boolean(text: &Vec<char>) -> (flag: Option<bool>)
    ensures
        flag == if text@ == seq!['t', 'r', 'u', 'e'] {
            Some(true)
        } else if text@ == seq!['f', 'a', 'l', 's', 'e'] {
            Some(false)
        } else {
            None::<bool>
        },
{
    if text.len() == 4 && text[0] == 't' && text[1] == 'r' && text[2] == 'u' && text[3] == 'e' {
        assert(text@ =~= seq!['t', 'r', 'u', 'e']);
        Some(true)
    } else if text.len() == 5 && text[0] == 'f' && text[1] == 'a' && text[2] == 'l' && text[3]
        == 's' && text[4] == 'e' {
        assert(text@ =~= seq!['f', 'a', 'l', 's', 'e']);
        Some(false)
    } else {
        None
    }
}

impl Value {
    /// Reads `raw` under `data_type`: the typed value, or the parse error's message.
    pub fn new(raw: &String, data_type: &DataType) -> (made: Result<Value, String>)
        ensures
            match made {
                Ok(value) => data_type.typed(raw@) == Ok::<ValueView, Seq<char>>(value@),
                Err(message) => data_type.typed(raw@) == Err::<ValueView, Seq<char>>(message@),
            },
    {
        match data_type {
            DataType::String => Ok(Value::String(raw.clone())),
            DataType::Integer => {
                let chars = chars_of(raw.as_str());
                match parse_integer(&chars) {
                    Some(number) => Ok(Value::Integer(number)),
                    None => Err(String::from_str("Not a valid Integer")),
                }
            },
            DataType::Boolean => {
                let chars = chars_of(raw.as_str());
                match parse_boolean(&chars) {
                    Some(flag) => Ok(Value::Boolean(flag)),
                    None => Err(String::from_str("Not a valid Boolean")),
                }
            },
        }
    }
}

} // verus!
