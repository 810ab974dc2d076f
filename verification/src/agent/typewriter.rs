//! Typing a text one character at a time, with a delay after each that
//! varies at random.

use vstd::prelude::*;

use crate::agent::applescript::{type_char_script, type_char_text};
use crate::text::chars_of;

verus! {

/// `fastrand::u64` on the range from zero to `max`, both included: a number
/// of the thread's generator, never above `max`.
#[verifier::external_body]
fn random_up_to(max: u64) -> (n: u64)
    ensures
        n <= max,
{
    fastrand::u64(0..=max)
}

/// The script that types `ch` and the delay that follows it: the base delay
/// and the extra drawn for this character.
pub fn keystroke_with_delay(ch: char, speed_ms: u64, extra_ms: u64) -> (step: (String, u64))
    requires
        speed_ms + extra_ms <= u64::MAX,
    ensures
        step.0@ == type_char_text(ch),
        step.1 == speed_ms + extra_ms,
{
    (type_char_script(ch), speed_ms + extra_ms)
}

/// Whether `steps` types `text` at the given cadence: one step for each
/// character, in order, each with the script that types the character and a
/// delay between `speed_ms` and `speed_ms + variance_ms`.
pub open spec fn types_text(
    steps: Seq<(Seq<char>, u64)>,
    text: Seq<char>,
    speed_ms: u64,
    variance_ms: u64,
) -> bool {
    &&& steps.len() == text.len()
    &&& forall|i: int|
        0 <= i < steps.len() ==> {
            &&& (#[trigger] steps[i]).0 == type_char_text(text[i])
            &&& speed_ms <= steps[i].1 <= speed_ms + variance_ms
        }
}

/// For each character of `text` the script that types it and the delay to
/// keep after it, in milliseconds. With a variance of zero every delay is
/// `speed_ms`; otherwise each is `speed_ms` plus a random extra of at most
/// `variance_ms`, drawn anew for each character.
pub fn typewriter_to_applescript(text: &str, speed_ms: u64, variance_ms: u64) -> (steps: Vec<
    (String, u64),
>)
    requires
        speed_ms + variance_ms <= u64::MAX,
    ensures
        types_text(steps.deep_view(), text@, speed_ms, variance_ms),
{
    let chars = chars_of(text);
    let mut steps: Vec<(String, u64)> = Vec::new();
    let mut i: usize = 0;
    while i < chars.len()
        invariant
            i <= chars.len(),
            chars@ == text@,
            speed_ms + variance_ms <= u64::MAX,
            types_text(steps.deep_view(), text@.take(i as int), speed_ms, variance_ms),
        decreases chars.len() - i,
    {
        let extra = if variance_ms > 0 {
            random_up_to(variance_ms)
        } else {
            0
        };
        let ghost before = steps.deep_view();
        let step = keystroke_with_delay(chars[i], speed_ms, extra);
        steps.push(step);
        proof {
            let now = steps.deep_view();
            assert(now =~= before.push((type_char_text(chars@[i as int]), (speed_ms + extra) as u64)));
            assert forall|j: int| 0 <= j < now.len() implies {
                &&& (#[trigger] now[j]).0 == type_char_text(text@.take(i + 1)[j])
                &&& speed_ms <= now[j].1 <= speed_ms + variance_ms
            } by {
                if j < i {
                    assert(now[j] == before[j]);
                }
            }
        }
        i += 1;
    }
    assert(text@.take(i as int) =~= text@);
    steps
}

} // verus!
