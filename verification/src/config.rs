//! The two settings of the service: where the templates are, and which port
//! to listen on. Both come from outside as optional texts; the functions here
//! say what each text means.

use crate::text::chars_of;
use vstd::prelude::*;

verus! {

/// The settings, fixed once at startup.
#[derive(Clone, Debug, PartialEq, Eq)]
pub struct Config {
    pub template_path: String,
    pub port: u16,
}

/// The directory that is used where none is named.
pub open spec fn default_template_path() -> Seq<char> {
    "templates"@
}

/// The port that is used where none is named.
pub open spec fn default_port() -> u16 {
    3001
}

/// The number that a decimal digit stands for.
pub open spec fn digit_value(c: char) -> Option<int> {
    if '0' <= c <= '9' {
        Some(c as int - '0' as int)
    } else {
        None
    }
}

/// The number that a run of decimal digits stands for, `None` where a
/// character is no digit. Leading zeros are allowed.
pub open spec fn decimal(digits: Seq<char>) -> Option<int>
    decreases digits.len(),
{
    if digits.len() == 0 {
        Some(0)
    } else {
        match (decimal(digits.drop_last()), digit_value(digits.last())) {
            (Some(value), Some(digit)) => Some(value * 10 + digit),
            _ => None,
        }
    }
}

/// The port that a text names: an optional `+`, then at least one decimal
/// digit, and a value of at most 65535.
pub open spec fn parsed_port(text: Seq<char>) -> Option<u16> {
    let digits = if text.len() > 0 && text[0] == '+' {
        text.drop_first()
    } else {
        text
    };
    if digits.len() == 0 {
        None
    } else {
        match decimal(digits) {
            Some(value) => if value <= 65535 {
                Some(value as u16)
            } else {
                None
            },
            None => None,
        }
    }
}

/// The port to listen on, given the setting: the default where there is
/// none, else what the text names.
pub open spec fn port_of(value: Option<Seq<char>>) -> Option<u16> {
    match value {
        None => Some(default_port()),
        Some(text) => parsed_port(text),
    }
}

/// A number that has grown past every port stays past it, whatever digits
/// follow.
proof fn lemma_decimal_grows(digits: Seq<char>, upto: int)
    requires
        0 <= upto <= digits.len(),
        decimal(digits.take(upto)) matches Some(value) && value > 65535,
    ensures
        decimal(digits) matches Some(value) ==> value > 65535,
    decreases digits.len() - upto,
{
    if upto == digits.len() {
        assert(digits.take(upto) =~= digits);
    } else {
        assert(digits.take(upto + 1).drop_last() =~= digits.take(upto));
        if decimal(digits.take(upto + 1)) is Some {
            lemma_decimal_grows(digits, upto + 1);
        } else {
            lemma_decimal_fails(digits, upto + 1);
        }
    }
}

/// A character that is no digit spoils the number, whatever follows.
proof fn lemma_decimal_fails(digits: Seq<char>, upto: int)
    requires
        0 <= upto <= digits.len(),
        decimal(digits.take(upto)) is None,
    ensures
        decimal(digits) is None,
    decreases digits.len() - upto,
{
    if upto == digits.len() {
        assert(digits.take(upto) =~= digits);
    } else {
        assert(digits.take(upto + 1).drop_last() =~= digits.take(upto));
        lemma_decimal_fails(digits, upto + 1);
    }
}

/// The directory of the templates: the setting, or `templates` where there
/// is none.
pub fn get_template_path(setting: Option<String>) -> (path: String)
    ensures
        path@ == match setting {
            Some(text) => text@,
            None => default_template_path(),
        },
{
    match setting {
        Some(text) => text,
        None => "templates".to_owned(),
    }
}

/// The port to listen on: 3001 where there is no setting, else the number
/// that the setting names, `None` where it names none.
pub fn port(setting: Option<&str>) -> (number: Option<u16>)
    ensures
        number == port_of(
            match setting {
                Some(text) => Some(text@),
                None => None,
            },
        ),
{
    let text = match setting {
        Some(text) => text,
        None => {
            return Some(3001);
        },
    };
    let chars = chars_of(text);
    let start: usize = if chars.len() > 0 && chars[0] == '+' {
        1
    } else {
        0
    };
    if chars.len() == start {
        return None;
    }
    let ghost digits = chars@.subrange(start as int, chars.len() as int);
    assert(digits =~= if start == 1 {
        text@.drop_first()
    } else {
        text@
    });
    assert(parsed_port(text@) == match decimal(digits) {
        Some(value) => if value <= 65535 {
            Some(value as u16)
        } else {
            None
        },
        None => None,
    });
    let mut value: u32 = 0;
    let mut i: usize = start;
    assert(digits.take(0) =~= Seq::<char>::empty());
    while i < chars.len()
        invariant
            start <= i <= chars.len(),
            setting == Some(text),
            digits == chars@.subrange(start as int, chars.len() as int),
            parsed_port(text@) == match decimal(digits) {
                Some(value) => if value <= 65535 {
                    Some(value as u16)
                } else {
                    None
                },
                None => None,
            },
            decimal(digits.take(i - start)) == Some(value as int),
            value <= 65535,
        decreases chars.len() - i,
    {
        let c = chars[i];
        proof {
            assert(digits.take(i - start + 1).drop_last() =~= digits.take(i - start));
            assert(digits.take(i - start + 1).last() == c);
        }
        if c < '0' || c > '9' {
            proof {
                lemma_decimal_fails(digits, i - start + 1);
            }
            return None;
        }
        let digit: u32 = (c as u32) - ('0' as u32);
        value = value * 10 + digit;
        if value > 65535 {
            proof {
                lemma_decimal_grows(digits, i - start + 1);
            }
            return None;
        }
        i += 1;
    }
    assert(digits.take(i - start) =~= digits);
    Some(value as u16)
}

impl Config {
    /// The settings that the two texts name, `None` where the port's text
    /// names no port.
    pub fn new(template_path: Option<String>, port_text: Option<&str>) -> (config: Option<Config>)
        ensures
            match config {
                Some(c) => c.template_path@ == (match template_path {
                    Some(text) => text@,
                    None => default_template_path(),
                }) && port_of(
                    match port_text {
                        Some(text) => Some(text@),
                        None => None,
                    },
                ) == Some(c.port),
                None => port_of(
                    match port_text {
                        Some(text) => Some(text@),
                        None => None,
                    },
                ) is None,
            },
    {
        match port(port_text) {
            Some(number) => Some(Config { template_path: get_template_path(template_path), port: number }),
            None => None,
        }
    }
}

} // verus!
