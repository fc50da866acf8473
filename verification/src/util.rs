//! Durations in words.

use std::time::Duration;
use vstd::prelude::*;
use crate::text::{decimal, push_char, push_decimal};

verus! {

/// The whole seconds of a duration, as `Duration::as_secs` gives them.
pub uninterp spec fn whole_seconds(duration: Duration) -> u64;

/// `Duration::as_secs`: the number of whole seconds that the duration holds.
#[verifier::external_body]
fn duration_as_secs(duration: &Duration) -> (secs: u64)
    ensures
        secs == whole_seconds(*duration),
{
    duration.as_secs()
}

/// `text` with the word for `n` of `unit` after it, parted from what comes
/// before by a space. Nothing is said of a unit of which there is none.
pub open spec fn with_word(text: Seq<char>, n: nat, unit: char) -> Seq<char> {
    if n == 0 {
        text
    } else if text.len() == 0 {
        decimal(n).push(unit)
    } else {
        text.push(' ') + decimal(n).push(unit)
    }
}

/// A number of seconds in words: the hours, the minutes and the seconds,
/// each with its unit, as far as there are any.
pub open spec fn humanize_spec(total_secs: u64) -> Seq<char> {
    let hours = (total_secs / 3600) as nat;
    let minutes = ((total_secs % 3600) / 60) as nat;
    let seconds = (total_secs % 60) as nat;
    with_word(with_word(with_word(Seq::<char>::empty(), hours, 'h'), minutes, 'm'), seconds, 's')
}

/// Appends the word for `n` of `unit` to `text`.
fn push_word(text: &mut String, n: u64, unit: char)
    ensures
        final(text)@ == with_word(old(text)@, n as nat, unit),
{
    if n > 0 {
        if !text.as_str().is_empty() {
            push_char(text, ' ');
        }
        push_decimal(text, n);
        push_char(text, unit);
        proof {
            assert(text@ =~= with_word(old(text)@, n as nat, unit));
        }
    }
}

/// A number of seconds in words, as in `1h 2m 3s`. Units of which there are
/// none are left out, so that no seconds at all give the empty string.
pub fn humanize_seconds(total_secs: u64) -> (words: String)
    ensures
        words@ == humanize_spec(total_secs),
{
    let hours = total_secs / 3600;
    let minutes = (total_secs % 3600) / 60;
    let seconds = total_secs % 60;
    let mut words = String::new();
    push_word(&mut words, hours, 'h');
    push_word(&mut words, minutes, 'm');
    push_word(&mut words, seconds, 's');
    words
}

/// A duration in words, to the second.
pub fn humanize_duration(duration: Duration) -> (words: String)
    ensures
        words@ == humanize_spec(whole_seconds(duration)),
{
    humanize_seconds(duration_as_secs(&duration))
}

} // verus!
