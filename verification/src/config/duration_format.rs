//! How lengths of time are written in the configuration: a whole number and a
//! unit, such as `30s`, `10m` or `2h`.

use crate::config::error::ConfigError;
use crate::text::{chars_of, parse_number, parsed, substring_of};
use crate::time::{Duration, NANOS_PER_SEC};
use vstd::prelude::*;

verus! {

/// The seconds in a unit: `s`, `m` or `h`.
pub open spec fn unit_secs(unit: char) -> Option<nat> {
    match unit {
        's' => Some(1),
        'm' => Some(60),
        'h' => Some(3600),
        _ => None,
    }
}

/// The length of time that a text stands for, if it is a number of at most
/// `u64::MAX` followed by a unit.
pub open spec fn written_duration(text: Seq<char>) -> Option<Duration> {
    if text.len() == 0 {
        None
    } else {
        match (parsed(text.drop_last(), u64::MAX as nat), unit_secs(text.last())) {
            (Some(n), Some(secs)) => Some(Duration::of_secs(n * secs)),
            _ => None,
        }
    }
}

/// Reads a length of time.
pub fn parse_duration(text: &str) -> (r: Result<Duration, ConfigError>)
    ensures
        match r {
            Ok(d) => written_duration(text@) == Some(d),
            Err(e) => {
                &&& written_duration(text@) is None
                &&& e@ == ConfigError::<Seq<char>, Seq<Seq<char>>>::InvalidDuration {
                    value: text@,
                    message: "expected a number followed by s, m or h"@,
                }
            },
        },
{
    let chars = chars_of(text);
    if chars.len() > 0 {
        let unit: Option<u64> = match chars[chars.len() - 1] {
            's' => Some(1),
            'm' => Some(60),
            'h' => Some(3600),
            _ => None,
        };
        let number = substring_of(&chars, 0, chars.len() - 1);
        assert(number@ =~= text@.drop_last());
        if let Some(secs) = unit {
            if let Some(n) = parse_number(number.as_str(), u64::MAX) {
                assert(n * secs <= u64::MAX * 3600) by (nonlinear_arith)
                    requires
                        n <= u64::MAX,
                        secs <= 3600,
                ;
                let total: u128 = n as u128 * secs as u128;
                return Ok(Duration { nanos: total * NANOS_PER_SEC });
            }
        }
    }
    Err(
        ConfigError::InvalidDuration {
            value: text.to_owned(),
            message: "expected a number followed by s, m or h".to_owned(),
        },
    )
}

} // verus!
