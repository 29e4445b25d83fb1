//! What the wait indicator shows: at each tick an orb between two sparkles,
//! and a status message that changes every ten ticks.
use vstd::prelude::*;

verus! {

broadcast use vstd::string::group_string_axioms;

/// How many frames the orb animation has.
pub const FRAME_COUNT: usize = 6;

/// How many ticks each status message stays.
pub const TICKS_PER_MESSAGE: usize = 10;

/// The orb at frame `i`.
pub open spec fn spec_orb_frame(i: int) -> char {
    if i == 0 {
        '\u{25cc}'
    } else if i == 1 {
        '\u{25cd}'
    } else if i == 2 {
        '\u{25ce}'
    } else if i == 3 {
        '\u{25c9}'
    } else if i == 4 {
        '\u{25ce}'
    } else {
        '\u{25cd}'
    }
}

/// The sparkle at frame `i`.
pub open spec fn spec_sparkle(i: int) -> char {
    if i == 0 {
        '\u{2726}'
    } else if i == 1 {
        '\u{2727}'
    } else if i == 2 {
        '\u{b7}'
    } else if i == 3 {
        '*'
    } else if i == 4 {
        '\u{2da}'
    } else {
        ' '
    }
}

/// The status message number `i`.
pub open spec fn spec_mystical_message(i: int) -> Seq<char> {
    if i == 0 {
        "consulting the hidden lattice..."@
    } else if i == 1 {
        "tracing luminous threads..."@
    } else if i == 2 {
        "listening for improbable truths..."@
    } else if i == 3 {
        "distilling fragments into shape..."@
    } else if i == 4 {
        "reading the weather of symbols..."@
    } else {
        "asking the orb to blink twice..."@
    }
}

/// The orb part of the line at `tick`: a sparkle, the orb, another sparkle
/// two frames ahead, separated by spaces.
pub open spec fn spec_orb(tick: int) -> Seq<char> {
    seq![
        spec_sparkle(tick % 6),
        ' ',
        spec_orb_frame(tick % 6),
        ' ',
        spec_sparkle((tick + 2) % 6),
    ]
}

/// The message part of the line at `tick`.
pub open spec fn spec_message(tick: int, show_mystical: bool) -> Seq<char> {
    if show_mystical {
        spec_mystical_message((tick / 10) % 6)
    } else {
        "pondering..."@
    }
}

/// The whole line shown at `tick`.
pub open spec fn spec_wait_line(tick: int, show_orb: bool, show_mystical: bool) -> Seq<char> {
    if show_orb {
        spec_orb(tick) + seq![' ', ' '] + spec_message(tick, show_mystical)
    } else {
        spec_message(tick, show_mystical)
    }
}

fn orb_frame(i: usize) -> (c: char)
    requires
        i < 6,
    ensures
        c == spec_orb_frame(i as int),
{
    if i == 0 {
        '\u{25cc}'
    } else if i == 1 {
        '\u{25cd}'
    } else if i == 2 {
        '\u{25ce}'
    } else if i == 3 {
        '\u{25c9}'
    } else if i == 4 {
        '\u{25ce}'
    } else {
        '\u{25cd}'
    }
}

fn sparkle(i: usize) -> (c: char)
    requires
        i < 6,
    ensures
        c == spec_sparkle(i as int),
{
    if i == 0 {
        '\u{2726}'
    } else if i == 1 {
        '\u{2727}'
    } else if i == 2 {
        '\u{b7}'
    } else if i == 3 {
        '*'
    } else if i == 4 {
        '\u{2da}'
    } else {
        ' '
    }
}

fn mystical_message(i: usize) -> (m: &'static str)
    requires
        i < 6,
    ensures
        m@ == spec_mystical_message(i as int),
{
    if i == 0 {
        "consulting the hidden lattice..."
    } else if i == 1 {
        "tracing luminous threads..."
    } else if i == 2 {
        "listening for improbable truths..."
    } else if i == 3 {
        "distilling fragments into shape..."
    } else if i == 4 {
        "reading the weather of symbols..."
    } else {
        "asking the orb to blink twice..."
    }
}

/// The line that the wait indicator shows at `tick`.
pub fn wait_line(tick: usize, show_orb: bool, show_mystical: bool) -> (r: String)
    requires
        tick + 2 <= usize::MAX,
    ensures
        r@ == spec_wait_line(tick as int, show_orb, show_mystical),
{
    let message = if show_mystical {
        mystical_message((tick / TICKS_PER_MESSAGE) % FRAME_COUNT)
    } else {
        "pondering..."
    };
    if show_orb {
        let mut r = String::new();
        crate::text::append_char(&mut r, sparkle(tick % FRAME_COUNT));
        crate::text::append_char(&mut r, ' ');
        crate::text::append_char(&mut r, orb_frame(tick % FRAME_COUNT));
        crate::text::append_char(&mut r, ' ');
        crate::text::append_char(&mut r, sparkle((tick + 2) % FRAME_COUNT));
        crate::text::append_char(&mut r, ' ');
        crate::text::append_char(&mut r, ' ');
        r.append(message);
        assert(r@ == spec_orb(tick as int) + seq![' ', ' '] + message@);
        r
    } else {
        message.to_owned()
    }
}

/// The tick after `tick`, wrapping around to 0 after the largest.
pub fn next_tick(tick: usize) -> (r: usize)
    ensures
        r == (if tick == usize::MAX {
            0
        } else {
            tick + 1
        }),
{
    if tick == usize::MAX {
        0
    } else {
        tick + 1
    }
}

/// The line repeats every sixty ticks: the orb every six, the message every sixty.
pub proof fn law_wait_line_period(tick: nat, show_orb: bool, show_mystical: bool)
    ensures
        spec_wait_line(tick + 60int, show_orb, show_mystical) == spec_wait_line(
            tick as int,
            show_orb,
            show_mystical,
        ),
{
    assert((tick + 60) % 6 == tick % 6);
    assert((tick + 62) % 6 == (tick + 2) % 6);
    assert((tick + 60) / 10 == tick / 10 + 6);
    assert((tick / 10 + 6) % 6 == (tick / 10) % 6);
}

/// The status message stays the same for ten ticks in a row, from each
/// multiple of ten.
pub proof fn law_message_steady(tick: nat, show_mystical: bool)
    requires
        tick % 10 != 9,
    ensures
        spec_message(tick + 1int, show_mystical) == spec_message(tick as int, show_mystical),
{
    assert((tick + 1) / 10 == tick / 10);
}

} // verus!
