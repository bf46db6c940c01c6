//! The ship's watches and the bells struck within them, the text shown for
//! a clock state, and the chimes that sound a bell count.

use crate::clock::ZonedDateTime;
use vstd::prelude::*;

verus! {

/// The seven watches of a ship's day.
#[derive(Clone, Copy, Debug, PartialEq, Eq, Structural)]
pub enum Watch {
    First,
    Middle,
    Morning,
    Forenoon,
    Afternoon,
    FirstDog,
    LastDog,
}

/// The name of a watch as it is spoken.
pub open spec fn watch_name(watch: Watch) -> Seq<char> {
    match watch {
        Watch::First => "first"@,
        Watch::Middle => "middle"@,
        Watch::Morning => "morning"@,
        Watch::Forenoon => "forenoon"@,
        Watch::Afternoon => "afternoon"@,
        Watch::FirstDog => "first dog"@,
        Watch::LastDog => "last dog"@,
    }
}

impl Watch {
    /// The name of the watch as it is spoken.
    pub fn display_string(&self) -> (r: &'static str)
        ensures
            r@ == watch_name(*self),
    {
        match self {
            Watch::First => "first",
            Watch::Middle => "middle",
            Watch::Morning => "morning",
            Watch::Forenoon => "forenoon",
            Watch::Afternoon => "afternoon",
            Watch::FirstDog => "first dog",
            Watch::LastDog => "last dog",
        }
    }
}

/// The watch that is kept during hour `h` of the day: first 20-23,
/// middle 0-3, morning 4-7, forenoon 8-11, afternoon 12-15, first dog
/// 16-17, last dog 18-19.
pub open spec fn watch_for_hour(h: int) -> Watch {
    if 20 <= h {
        Watch::First
    } else if h < 4 {
        Watch::Middle
    } else if h < 8 {
        Watch::Morning
    } else if h < 12 {
        Watch::Forenoon
    } else if h < 16 {
        Watch::Afternoon
    } else if h < 18 {
        Watch::FirstDog
    } else {
        Watch::LastDog
    }
}

/// Half-hours struck since the start of the four-hour period that holds
/// hour `h`, minute `m`: eight at the turn of each period, then one to
/// seven.
pub open spec fn half_hours_struck(h: int, m: int) -> int {
    let count = (h % 4) * 2 + if m >= 30 { 1int } else { 0 };
    if count == 0 {
        8
    } else {
        count
    }
}

/// Bells struck at hour `h`, minute `m`. The last dog watch starts its count
/// again at one, so it never strikes five, six or seven bells.
pub open spec fn bells_for(h: int, m: int) -> int {
    let count = half_hours_struck(h, m);
    if watch_for_hour(h) == Watch::LastDog && 5 <= count < 8 {
        count - 4
    } else {
        count
    }
}

/// The watch being kept and the bells struck in it.
#[derive(Clone, Copy, Debug, PartialEq, Eq, Structural)]
pub struct ClockState {
    pub watch: Watch,
    pub bells: u32,
}

impl ClockState {
    pub open spec fn wf(self) -> bool {
        1 <= self.bells <= 8
    }

    /// The clock state at hour `h`, minute `m`.
    pub open spec fn at(h: int, m: int) -> ClockState {
        ClockState { watch: watch_for_hour(h), bells: bells_for(h, m) as u32 }
    }

    /// The tooltip text, such as "Four bells of the morning watch".
    pub fn tooltip(self) -> (r: String)
        requires
            self.wf(),
        ensures
            r@ == tooltip_text(self),
    {
        let bell_word = if self.bells == 1 {
            "bell"
        } else {
            "bells"
        };
        let mut text = String::from_str(bell_count_text(self.bells));
        text.append(" ");
        text.append(bell_word);
        text.append(" of the ");
        text.append(self.watch.display_string());
        text.append(" watch");
        text
    }
}

/// The word for a bell count from one to eight, capitalised.
pub open spec fn bell_count_word(count: int) -> Seq<char> {
    if count == 1 {
        "One"@
    } else if count == 2 {
        "Two"@
    } else if count == 3 {
        "Three"@
    } else if count == 4 {
        "Four"@
    } else if count == 5 {
        "Five"@
    } else if count == 6 {
        "Six"@
    } else if count == 7 {
        "Seven"@
    } else {
        "Eight"@
    }
}

/// "<Count> bell[s] of the <watch> watch".
pub open spec fn tooltip_text(state: ClockState) -> Seq<char> {
    bell_count_word(state.bells as int) + " "@ + (if state.bells == 1 {
        "bell"@
    } else {
        "bells"@
    }) + " of the "@ + watch_name(state.watch) + " watch"@
}

/// The word for a bell count from one to eight.
pub fn bell_count_text(count: u32) -> (r: &'static str)
    requires
        1 <= count <= 8,
    ensures
        r@ == bell_count_word(count as int),
{
    match count {
        1 => "One",
        2 => "Two",
        3 => "Three",
        4 => "Four",
        5 => "Five",
        6 => "Six",
        7 => "Seven",
        _ => "Eight",
    }
}

/// The watch and bells for the wall-clock reading of `dt`.
pub fn watch_and_bells_for_time(dt: ZonedDateTime) -> (r: ClockState)
    requires
        dt.wf(),
    ensures
        r == ClockState::at(dt.spec_local().spec_hour(), dt.spec_local().spec_minute()),
        r.wf(),
{
    let local = dt.local();
    let hour = local.hour();
    let watch = if 20 <= hour {
        Watch::First
    } else if hour < 4 {
        Watch::Middle
    } else if hour < 8 {
        Watch::Morning
    } else if hour < 12 {
        Watch::Forenoon
    } else if hour < 16 {
        Watch::Afternoon
    } else if hour < 18 {
        Watch::FirstDog
    } else {
        Watch::LastDog
    };

    let mut bells = hour % 4 * 2;
    if local.minute() >= 30 {
        bells += 1;
    }
    if bells == 0 {
        bells = 8;
    }
    if watch == Watch::LastDog && bells >= 5 && bells != 8 {
        bells -= 4;
    }

    ClockState { watch, bells }
}

/// Every moment of the day strikes between one and eight bells.
pub proof fn lemma_bells_between_one_and_eight(h: int, m: int)
    requires
        0 <= h < 24,
        0 <= m < 60,
    ensures
        1 <= bells_for(h, m) <= 8,
{
}

/// The Nore rule: the last dog watch never strikes five, six or seven
/// bells; it strikes one to four.
pub proof fn lemma_last_dog_never_strikes_five(h: int, m: int)
    requires
        0 <= h < 24,
        0 <= m < 60,
        watch_for_hour(h) == Watch::LastDog,
    ensures
        1 <= bells_for(h, m) <= 4,
{
}

/// Outside the dog watches, the bells count the half-hours of the watch:
/// eight at its start, then one more at each half-hour, up to seven.
pub proof fn lemma_four_hour_watches_count_half_hours(h: int, m: int)
    requires
        0 <= h < 16 || 20 <= h < 24,
        0 <= m < 60,
    ensures
        ({
            let half_hour = (h % 4) * 2 + if m >= 30 { 1int } else { 0 };
            bells_for(h, m) == if half_hour == 0 { 8 } else { half_hour }
        }),
{
}

/// The dog watches from 16:00 to 19:30 strike 8, 1, 2, 3, 4, 1, 2, 3.
pub proof fn lemma_dog_watch_sequence()
    ensures
        bells_for(16, 0) == 8,
        bells_for(16, 30) == 1,
        bells_for(17, 0) == 2,
        bells_for(17, 30) == 3,
        bells_for(18, 0) == 4,
        bells_for(18, 30) == 1,
        bells_for(19, 0) == 2,
        bells_for(19, 30) == 3,
        watch_for_hour(17) == Watch::FirstDog,
        watch_for_hour(18) == Watch::LastDog,
{
}

/// The watch table: whatever the minute, hours 20-23 are the first watch,
/// 0-3 the middle, 4-7 the morning, 8-11 the forenoon, 12-15 the
/// afternoon, 16-17 the first dog and 18-19 the last dog watch.
pub proof fn lemma_watch_table(h: int, m: int)
    requires
        0 <= h < 24,
        0 <= m < 60,
    ensures
        20 <= h <= 23 ==> ClockState::at(h, m).watch == Watch::First,
        0 <= h <= 3 ==> ClockState::at(h, m).watch == Watch::Middle,
        4 <= h <= 7 ==> ClockState::at(h, m).watch == Watch::Morning,
        8 <= h <= 11 ==> ClockState::at(h, m).watch == Watch::Forenoon,
        12 <= h <= 15 ==> ClockState::at(h, m).watch == Watch::Afternoon,
        16 <= h <= 17 ==> ClockState::at(h, m).watch == Watch::FirstDog,
        18 <= h <= 19 ==> ClockState::at(h, m).watch == Watch::LastDog,
{
}

/// The tooltip begins with the count word; after it and a space, a single
/// bell reads "bell of ", and two to eight bells read "bells of "; it ends
/// with the name of the watch and " watch".
pub proof fn lemma_tooltip_noun(state: ClockState)
    requires
        state.wf(),
    ensures
        ({
            let w = bell_count_word(state.bells as int).len();
            let t = tooltip_text(state);
            &&& t.subrange(0, w as int) == bell_count_word(state.bells as int)
            &&& state.bells == 1 ==> t.subrange(w as int, w + 9int) == " bell of "@
            &&& state.bells >= 2 ==> t.subrange(w as int, w + 10int) == " bells of "@
            &&& t.skip(t.len() - watch_name(state.watch).len() - 6) == watch_name(state.watch)
                + " watch"@
        }),
{
    reveal_strlit(" ");
    reveal_strlit("bell");
    reveal_strlit("bells");
    reveal_strlit(" of the ");
    reveal_strlit(" bell of ");
    reveal_strlit(" bells of ");
    let word = bell_count_word(state.bells as int);
    let noun = if state.bells == 1 {
        "bell"@
    } else {
        "bells"@
    };
    let rest = " of the "@ + watch_name(state.watch) + " watch"@;
    let t = tooltip_text(state);
    assert(t =~= word + (" "@ + noun + rest));
    assert(t.subrange(0, word.len() as int) =~= word);
    reveal_strlit(" watch");
    assert(t =~= (word + " "@ + noun + " of the "@) + (watch_name(state.watch) + " watch"@));
    assert(t.skip(t.len() - watch_name(state.watch).len() - 6) =~= watch_name(state.watch)
        + " watch"@);
    if state.bells == 1 {
        assert(t.subrange(word.len() as int, word.len() + 9int) =~= " bell of "@);
    } else {
        assert(t.subrange(word.len() as int, word.len() + 10int) =~= " bells of "@);
    }
}

/// One sound from the bell recordings: a pair of strikes or a single one.
#[derive(Clone, Copy, Debug, PartialEq, Eq, Structural)]
pub enum Chime {
    Twice,
    Once,
}

/// Strikes sounded by a sequence of chimes.
pub open spec fn strikes(chimes: Seq<Chime>) -> int
    decreases chimes.len(),
{
    if chimes.len() == 0 {
        0
    } else {
        strikes(chimes.drop_last()) + match chimes.last() {
            Chime::Twice => 2int,
            Chime::Once => 1int,
        }
    }
}

/// The chimes that sound `bells` bells: the strikes in pairs, then a single
/// strike when the count is odd.
pub fn chime_plan(bells: u32) -> (r: Vec<Chime>)
    ensures
        r@.len() == bells / 2 + bells % 2,
        forall|i: int| 0 <= i < bells / 2 ==> r@[i] == Chime::Twice,
        bells % 2 == 1 ==> r@.last() == Chime::Once,
        strikes(r@) == bells,
{
    let mut plan: Vec<Chime> = Vec::new();
    let pairs = bells / 2;
    let mut i: u32 = 0;
    while i < pairs
        invariant
            pairs == bells / 2,
            i <= pairs,
            plan@.len() == i,
            forall|j: int| 0 <= j < i ==> plan@[j] == Chime::Twice,
            strikes(plan@) == 2 * i,
        decreases pairs - i,
    {
        let ghost before = plan@;
        plan.push(Chime::Twice);
        assert(plan@.drop_last() =~= before);
        i += 1;
    }
    if bells % 2 == 1 {
        let ghost before = plan@;
        plan.push(Chime::Once);
        assert(plan@.drop_last() =~= before);
    }
    plan
}

} // verus!
