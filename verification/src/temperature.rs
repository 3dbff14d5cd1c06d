use vstd::prelude::*;
use crate::strutil::{chars_of, chars_to_string, lower_of, lowercase};
use crate::text::{trim_chars, trim_spec};

verus! {

/// A temperature scale.
#[derive(Debug, Clone, Copy, PartialEq, Eq, Structural)]
pub enum TemperatureUnit {
    C,
    F,
    K,
}

/// The unit that a token names, once trimmed and lowercased: exactly the
/// single letters `c`, `f` and `k`; anything else names none.
pub open spec fn unit_of(s: Seq<char>) -> Option<TemperatureUnit> {
    if s == seq!['c'] {
        Some(TemperatureUnit::C)
    } else if s == seq!['f'] {
        Some(TemperatureUnit::F)
    } else if s == seq!['k'] {
        Some(TemperatureUnit::K)
    } else {
        None
    }
}

/// Parses the temperature unit from the input string as TemperatureUnit and
/// returns it: the input is trimmed, lowercased, and matched against the
/// three unit letters.
pub fn parse_unit(input: &str) -> (r: Option<TemperatureUnit>)
    ensures
        r == unit_of(lower_of(trim_spec(input@))),
{
    let v = chars_of(input);
    let t = trim_chars(&v);
    let ts = chars_to_string(&t);
    let lower = lowercase(ts.as_str());
    let lv = chars_of(lower.as_str());
    proof {
        assert(lv@ == lower_of(trim_spec(input@)));
    }
    if lv.len() == 1 {
        let c = lv[0];
        if c == 'c' {
            proof {
                assert(lv@ =~= seq!['c']);
            }
            Some(TemperatureUnit::C)
        } else if c == 'f' {
            proof {
                assert(lv@ =~= seq!['f']);
            }
            Some(TemperatureUnit::F)
        } else if c == 'k' {
            proof {
                assert(lv@ =~= seq!['k']);
            }
            Some(TemperatureUnit::K)
        } else {
            proof {
                assert(lv@ != seq!['c'] && lv@ != seq!['f'] && lv@ != seq!['k']);
            }
            None
        }
    } else {
        proof {
            assert(lv@.len() != 1);
            assert(lv@ != seq!['c'] && lv@ != seq!['f'] && lv@ != seq!['k']);
        }
        None
    }
}

} // verus!
