//! Screen capture: the arguments of the video commands, the size of the
//! recorded frames, and the order in which recorded frames are encoded.

use vstd::prelude::*;

use crate::client::commands::{all_digits, digits_value, number_digits};
use crate::text::chars_of;

verus! {

/// Longest side of a recorded video when none is given.
pub const LONGEST_SIDE: usize = 800;

/// `(x + to - 1) & !(to - 1)`: rounds `x` up to a multiple of `to` when
/// `to` is a power of two.
pub fn round_to_nearest(x: u32, to: u32) -> (r: u32)
    requires
        to >= 1,
        x + to - 1 <= u32::MAX,
    ensures
        r == ((x + to - 1) as u32) & !((to - 1) as u32),
{
    let y = to - 1;
    (x + y) & !y
}

/// What parsing a text as a `usize` gives: some value for one or more
/// ASCII digits, optionally after a `+`, whose value fits.
pub open spec fn parse_usize_spec(s: Seq<char>) -> Option<usize> {
    let d = number_digits(s);
    if d.len() > 0 && all_digits(d) && digits_value(d) <= usize::MAX {
        Some(digits_value(d) as usize)
    } else {
        None
    }
}

proof fn lemma_digits_value_monotone(s: Seq<char>, i: int)
    requires
        all_digits(s),
        0 <= i <= s.len(),
    ensures
        0 <= digits_value(s.take(i)) <= digits_value(s),
    decreases s.len() - i,
{
    if i < s.len() {
        lemma_digits_value_monotone(s, i + 1);
        assert(s.take(i + 1).drop_last() =~= s.take(i));
        lemma_digits_nonneg(s.take(i));
    } else {
        assert(s.take(i) =~= s);
        lemma_digits_nonneg(s);
    }
}

proof fn lemma_digits_nonneg(s: Seq<char>)
    requires
        all_digits(s),
    ensures
        digits_value(s) >= 0,
    decreases s.len(),
{
    if s.len() > 0 {
        lemma_digits_nonneg(s.drop_last());
    }
}

/// Parses a `usize` as `str::parse::<usize>` does.
pub fn parse_usize(s: &str) -> (r: Option<usize>)
    ensures
        r == parse_usize_spec(s@),
{
    let chars = chars_of(s);
    let mut i: usize = 0;
    if chars.len() > 0 && chars[0] == '+' {
        i = 1;
    }
    let ghost d = number_digits(s@);
    let ghost first = i;
    assert(d =~= chars@.subrange(i as int, chars@.len() as int));
    if i >= chars.len() {
        return None;
    }
    let mut value: usize = 0;
    while i < chars.len()
        invariant
            first <= i <= chars@.len(),
            chars@ == s@,
            d == number_digits(s@),
            d == chars@.subrange(first as int, chars@.len() as int),
            all_digits(d.take(i - first)),
            value == digits_value(d.take(i - first)),
        decreases chars@.len() - i,
    {
        let c = chars[i];
        if c < '0' || c > '9' {
            assert(d[i - first] == c);
            return None;
        }
        let ghost prefix = d.take(i + 1 - first);
        assert(prefix.drop_last() =~= d.take(i - first));
        assert(prefix.last() == c);
        let digit = ((c as u32) - ('0' as u32)) as usize;
        assert(digits_value(prefix) == value * 10 + digit);
        assert(all_digits(prefix));
        let next = match value.checked_mul(10) {
            Some(m) => m.checked_add(digit),
            None => None,
        };
        match next {
            Some(n) => {
                value = n;
            },
            None => {
                proof {
                    if all_digits(d) {
                        lemma_digits_value_monotone(d, i + 1 - first);
                        assert(d.take(d.len() as int) =~= d);
                    }
                }
                return None;
            },
        }
        i = i + 1;
    }
    assert(d.take(i - first) =~= d);
    Some(value)
}

/// What `startvideo` was asked for.
#[derive(Debug)]
pub enum VideoRequest {
    /// Record to the given path (or a dated default path when none is
    /// given), with the given longest side.
    Start { path: Option<String>, longest_side: usize },
    /// Refuse, printing the text.
    Refuse(String),
}

/// Reads the arguments of `startvideo`: an optional path and an optional
/// resolution, which falls back to 800 when it does not parse.
pub fn startvideo_request(recording: bool, args: &[String]) -> (r: VideoRequest)
    ensures
        recording ==> (r matches VideoRequest::Refuse(m) && m@ == "Already recording video"@),
        !recording && args@.len() == 0 ==> (r matches VideoRequest::Start { path, longest_side }
            && path is None && longest_side == LONGEST_SIDE),
        !recording && args@.len() == 1 ==> (r matches VideoRequest::Start { path, longest_side }
            && path matches Some(p) && p@ == args@[0]@ && longest_side == LONGEST_SIDE),
        !recording && args@.len() == 2 ==> (r matches VideoRequest::Start { path, longest_side }
            && path matches Some(p) && p@ == args@[0]@ && longest_side == match parse_usize_spec(
            args@[1]@,
        ) {
            Some(v) => v,
            None => LONGEST_SIDE,
        }),
        !recording && args@.len() > 2 ==> (r matches VideoRequest::Refuse(m) && m@
            == "Usage: startvideo [PATH] [RESOLUTION]"@),
{
    if recording {
        return VideoRequest::Refuse(String::from_str("Already recording video"));
    }
    if args.len() == 0 {
        VideoRequest::Start { path: None, longest_side: LONGEST_SIDE }
    } else if args.len() == 1 {
        VideoRequest::Start { path: Some(args[0].clone()), longest_side: LONGEST_SIDE }
    } else if args.len() == 2 {
        let side = match parse_usize(args[1].as_str()) {
            Some(v) => v,
            None => LONGEST_SIDE,
        };
        VideoRequest::Start { path: Some(args[0].clone()), longest_side: side }
    } else {
        VideoRequest::Refuse(String::from_str("Usage: startvideo [PATH] [RESOLUTION]"))
    }
}

/// `stopvideo`: stops the recording, or says that there is none.
pub fn stopvideo(recording: bool) -> (r: Result<(), String>)
    ensures
        recording ==> r is Ok,
        !recording ==> (r matches Err(m) && m@ == "Error: no video recording in progress"@),
{
    if recording {
        Ok(())
    } else {
        Err(String::from_str("Error: no video recording in progress"))
    }
}

/// `screenshot`: the path to save to (none: a dated default), or the usage text.
pub fn screenshot_request(args: &[String]) -> (r: Result<Option<String>, String>)
    ensures
        args@.len() == 0 ==> r == Ok::<Option<String>, String>(None),
        args@.len() == 1 ==> (r matches Ok(Some(p)) && p@ == args@[0]@),
        args@.len() > 1 ==> (r matches Err(m) && m@ == "Usage: screenshot [PATH]"@),
{
    if args.len() == 0 {
        Ok(None)
    } else if args.len() == 1 {
        Ok(Some(args[0].clone()))
    } else {
        Err(String::from_str("Usage: screenshot [PATH]"))
    }
}

/// Whether a frame is captured now: the first one, and then each one at
/// least a frame time after the last (times in nanoseconds).
pub fn should_capture(last: Option<u128>, now: u128, frame_time: u128) -> (r: bool)
    requires
        last matches Some(t) ==> t + frame_time <= u128::MAX,
    ensures
        r == match last {
            Some(t) => now >= t + frame_time,
            None => true,
        },
{
    match last {
        Some(t) => now >= t + frame_time,
        None => true,
    }
}

/// The next step of encoding recorded frames, which arrive out of order.
#[derive(Clone, Copy, Debug, PartialEq, Eq, Structural)]
pub enum EncodeStep {
    /// Take the first buffered frame and encode it as the current frame.
    EncodeFirst,
    /// Receive a frame from the recorder into the buffer.
    Receive,
    /// Nothing buffered and nothing more to come: the recording is done.
    Finish,
}

/// Decides the next encoding step from the first buffered frame number,
/// the frame to encode next, and whether frames may still arrive: the
/// frame due is encoded as soon as it is buffered; once nothing more can
/// arrive, buffered frames are encoded in order whatever their numbers.
pub fn encode_step(first_buffered: Option<usize>, cur_frame: usize, receiving: bool) -> (r: EncodeStep)
    ensures
        r == match (first_buffered, receiving) {
            (Some(f), _) if f == cur_frame => EncodeStep::EncodeFirst,
            (Some(_), false) => EncodeStep::EncodeFirst,
            (_, true) => EncodeStep::Receive,
            (None, false) => EncodeStep::Finish,
        },
{
    match (first_buffered, receiving) {
        (Some(f), _) if f == cur_frame => EncodeStep::EncodeFirst,
        (Some(_), false) => EncodeStep::EncodeFirst,
        (_, true) => EncodeStep::Receive,
        (None, false) => EncodeStep::Finish,
    }
}

} // verus!
