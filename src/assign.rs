use vstd::prelude::*;

use crate::color::{clamp_light, Color, Lch, FULL_TURN, HALF_TURN, LIGHT_MAX};
use crate::ThemeMode;

verus! {

/// Largest hue distance (60°) at which a candidate is used unmodified.
pub const MAX_HUE_DISTANCE: u32 = 6000;

/// Lightness added to an accent to make its bright variant (0.12).
pub const BRIGHT_L_DELTA: u32 = 1200;

/// Chroma a candidate must exceed to count as chromatic (0.02).
pub const MIN_CHROMA: u32 = 200;

/// Largest chroma of background and dim base slots (0.04).
pub const BASE_MAX_CHROMA: u32 = 400;

/// Largest chroma of text-emphasis base slots (0.02).
pub const TEXT_MAX_CHROMA: u32 = 200;

/// Lightness and chroma of an accent synthesized without any chromatic candidate.
pub const DEFAULT_ACCENT_L: u32 = 6500;
pub const DEFAULT_ACCENT_C: u32 = 1500;

/// Lightness of the fallback darkest and lightest candidates (0.15 and 0.93).
pub const FALLBACK_DARK_L: u32 = 1500;
pub const FALLBACK_LIGHT_L: u32 = 9300;

/// Lightness shift of the selection background (0.1).
pub const SELECTION_L_DELTA: u32 = 1000;

/// Smallest chroma of the selection background (0.01).
pub const SELECTION_MIN_CHROMA: u32 = 100;

/// The full ANSI palette plus the derived special colors.
#[derive(Clone, Copy, Debug)]
pub struct AnsiPalette {
    /// ANSI colors 0-15.
    pub slots: [Color; 16],
    pub background: Color,
    pub foreground: Color,
    pub cursor_color: Color,
    pub cursor_text: Color,
    pub selection_bg: Color,
    pub selection_fg: Color,
}

/// Shortest angular distance between two hues, wrapped into [0°, 180°].
pub open spec fn hue_dist(a: int, b: int) -> int {
    let diff = (if a >= b { a - b } else { b - a }) % (FULL_TURN as int);
    if diff > HALF_TURN {
        FULL_TURN - diff
    } else {
        diff
    }
}

/// Target hue of accent slot `slot` (1 = red 25°, 2 = green 145°, 3 = yellow 90°,
/// 4 = blue 260°, 5 = magenta 325°, 6 = cyan 195°).
pub open spec fn target_hue(slot: int) -> u32 {
    if slot == 1 {
        2500
    } else if slot == 2 {
        14500
    } else if slot == 3 {
        9000
    } else if slot == 4 {
        26000
    } else if slot == 5 {
        32500
    } else {
        19500
    }
}

pub open spec fn is_chromatic(c: Lch) -> bool {
    c.c > MIN_CHROMA
}

pub open spec fn has_chromatic(cands: Seq<Lch>) -> bool {
    exists|i: int| 0 <= i < cands.len() && is_chromatic(#[trigger] cands[i])
}

/// `j` is the first chromatic candidate whose hue is nearest to `target`.
pub open spec fn is_closest(cands: Seq<Lch>, target: u32, j: int) -> bool {
    &&& 0 <= j < cands.len()
    &&& is_chromatic(cands[j])
    &&& forall|i: int|
        0 <= i < cands.len() && is_chromatic(#[trigger] cands[i]) ==> hue_dist(cands[j].h as int, target as int)
            <= hue_dist(cands[i].h as int, target as int)
    &&& forall|i: int|
        0 <= i < j && is_chromatic(#[trigger] cands[i]) ==> hue_dist(cands[j].h as int, target as int)
            < hue_dist(cands[i].h as int, target as int)
}

/// The accent for `target` taken from its closest candidate: the candidate itself
/// when within `MAX_HUE_DISTANCE`, else the candidate rotated onto the target hue.
pub open spec fn accent_from(best: Lch, target: u32) -> Lch {
    if hue_dist(best.h as int, target as int) <= MAX_HUE_DISTANCE {
        best
    } else {
        Lch { l: best.l, c: best.c, h: target }
    }
}

/// The accent synthesized when no candidate is chromatic.
pub open spec fn default_accent(target: u32) -> Lch {
    Lch { l: DEFAULT_ACCENT_L, c: DEFAULT_ACCENT_C, h: target }
}

/// What the accent for `target` is, given the candidates.
pub open spec fn accent_spec(cands: Seq<Lch>, target: u32, r: Lch) -> bool {
    &&& !has_chromatic(cands) ==> r == default_accent(target)
    &&& has_chromatic(cands) ==> exists|j: int|
        is_closest(cands, target, j) && r == accent_from(#[trigger] cands[j], target)
}

pub open spec fn all_wf(cands: Seq<Lch>) -> bool {
    forall|i: int| 0 <= i < cands.len() ==> (#[trigger] cands[i]).wf()
}

/// Angular distance between two hues, wrapped into [0°, 180°].
pub fn hue_distance(a: u32, b: u32) -> (d: u32)
    ensures
        d == hue_dist(a as int, b as int),
        d <= HALF_TURN,
{
    let diff: u32 = (if a >= b { a - b } else { b - a }) % FULL_TURN;
    if diff > HALF_TURN {
        FULL_TURN - diff
    } else {
        diff
    }
}

/// Index of the first chromatic candidate whose hue is nearest to `target_hue`,
/// or `None` when no candidate is chromatic.
pub fn find_closest_by_hue(cands: &Vec<Lch>, target_hue: u32) -> (r: Option<usize>)
    ensures
        r is None <==> !has_chromatic(cands@),
        r matches Some(j) ==> is_closest(cands@, target_hue, j as int),
{
    let mut best: Option<usize> = None;
    let mut best_dist: u32 = 0;
    let mut i: usize = 0;
    while i < cands.len()
        invariant
            i <= cands.len(),
            best is None <==> forall|m: int| 0 <= m < i ==> !is_chromatic(#[trigger] cands@[m]),
            best matches Some(j) ==> {
                &&& j < i
                &&& is_chromatic(cands@[j as int])
                &&& best_dist == hue_dist(cands@[j as int].h as int, target_hue as int)
                &&& forall|m: int|
                    0 <= m < i && is_chromatic(#[trigger] cands@[m]) ==> best_dist <= hue_dist(
                        cands@[m].h as int,
                        target_hue as int,
                    )
                &&& forall|m: int|
                    0 <= m < j && is_chromatic(#[trigger] cands@[m]) ==> best_dist < hue_dist(
                        cands@[m].h as int,
                        target_hue as int,
                    )
            },
        decreases cands.len() - i,
    {
        let c = cands[i];
        if c.c > MIN_CHROMA {
            let d = hue_distance(c.h, target_hue);
            let better = match best {
                None => true,
                Some(_) => d < best_dist,
            };
            if better {
                best = Some(i);
                best_dist = d;
            }
        }
        i += 1;
    }
    best
}

/// The accent color (in Oklch) for the slot whose target hue is `target_hue`.
pub fn accent_target(cands: &Vec<Lch>, target_hue: u32) -> (r: Lch)
    requires
        all_wf(cands@),
        target_hue < FULL_TURN,
    ensures
        r.wf(),
        accent_spec(cands@, target_hue, r),
{
    match find_closest_by_hue(cands, target_hue) {
        Some(j) => {
            let best = cands[j];
            let r = if hue_distance(best.h, target_hue) <= MAX_HUE_DISTANCE {
                best
            } else {
                Lch::new(best.l, best.c, target_hue)
            };
            assert(is_closest(cands@, target_hue, j as int) && r == accent_from(cands@[j as int], target_hue));
            r
        },
        None => Lch::new(DEFAULT_ACCENT_L, DEFAULT_ACCENT_C, target_hue),
    }
}

/// Target hue (hundredths of a degree) of accent slot `slot`, 1 to 6.
pub fn target_hue_of(slot: usize) -> (h: u32)
    requires
        1 <= slot <= 6,
    ensures
        h == target_hue(slot as int),
        h < FULL_TURN,
{
    match slot {
        1 => 2500,
        2 => 14500,
        3 => 9000,
        4 => 26000,
        5 => 32500,
        _ => 19500,
    }
}

/// Accent colors for slots 1 to 6, in slot order.
pub fn accent_targets(cands: &Vec<Lch>) -> (r: [Lch; 6])
    requires
        all_wf(cands@),
    ensures
        forall|i: int| 0 <= i < 6 ==> (#[trigger] r[i]).wf() && accent_spec(cands@, target_hue(i + 1), r[i]),
{
    let mut r = [Lch::new(0, 0, 0); 6];
    let mut i: usize = 0;
    while i < 6
        invariant
            i <= 6,
            all_wf(cands@),
            forall|m: int| 0 <= m < i ==> (#[trigger] r[m]).wf() && accent_spec(cands@, target_hue(m + 1), r[m]),
        decreases 6 - i,
    {
        r[i] = accent_target(cands, target_hue_of(i + 1));
        i += 1;
    }
    r
}

/// `j` is the first candidate of least lightness.
pub open spec fn is_darkest(cands: Seq<Lch>, j: int) -> bool {
    &&& 0 <= j < cands.len()
    &&& forall|i: int| 0 <= i < cands.len() ==> cands[j].l <= (#[trigger] cands[i]).l
    &&& forall|i: int| 0 <= i < j ==> cands[j].l < (#[trigger] cands[i]).l
}

/// `j` is the last candidate of greatest lightness.
pub open spec fn is_lightest(cands: Seq<Lch>, j: int) -> bool {
    &&& 0 <= j < cands.len()
    &&& forall|i: int| 0 <= i < cands.len() ==> (#[trigger] cands[i]).l <= cands[j].l
    &&& forall|i: int| j < i < cands.len() ==> (#[trigger] cands[i]).l < cands[j].l
}

/// The darkest candidate, or a neutral of lightness 0.15 when there is none.
pub open spec fn dark_base_spec(cands: Seq<Lch>, r: Lch) -> bool {
    &&& cands.len() == 0 ==> r == (Lch { l: FALLBACK_DARK_L, c: 0, h: 0 })
    &&& cands.len() > 0 ==> exists|j: int| is_darkest(cands, j) && r == #[trigger] cands[j]
}

/// The lightest candidate, or a neutral of lightness 0.93 when there is none.
pub open spec fn light_base_spec(cands: Seq<Lch>, r: Lch) -> bool {
    &&& cands.len() == 0 ==> r == (Lch { l: FALLBACK_LIGHT_L, c: 0, h: 0 })
    &&& cands.len() > 0 ==> exists|j: int| is_lightest(cands, j) && r == #[trigger] cands[j]
}

pub open spec fn min_u(a: u32, b: u32) -> u32 {
    if a <= b { a } else { b }
}

pub open spec fn max_u(a: u32, b: u32) -> u32 {
    if a >= b { a } else { b }
}

/// Base slots 0, 7, 8 and 15 (in that order) from the darkest and lightest bases.
pub open spec fn base_slots(dark: Lch, light: Lch, mode: ThemeMode) -> Seq<Lch> {
    match mode {
        ThemeMode::Dark => seq![
            Lch { l: min_u(dark.l, FALLBACK_DARK_L), c: min_u(dark.c, BASE_MAX_CHROMA), h: dark.h },
            Lch { l: 8500, c: min_u(light.c, TEXT_MAX_CHROMA), h: light.h },
            Lch { l: 4000, c: min_u(dark.c, BASE_MAX_CHROMA), h: dark.h },
            Lch { l: FALLBACK_LIGHT_L, c: min_u(light.c, TEXT_MAX_CHROMA), h: light.h },
        ],
        ThemeMode::Light => seq![
            Lch { l: max_u(light.l, FALLBACK_LIGHT_L), c: min_u(light.c, TEXT_MAX_CHROMA), h: light.h },
            Lch { l: 2000, c: min_u(dark.c, TEXT_MAX_CHROMA), h: dark.h },
            Lch { l: 6000, c: min_u(light.c, BASE_MAX_CHROMA), h: light.h },
            Lch { l: min_u(dark.l, FALLBACK_DARK_L), c: min_u(dark.c, TEXT_MAX_CHROMA), h: dark.h },
        ],
    }
}

/// The darkest candidate by lightness (the first of equals), or the fallback.
pub fn darkest_candidate(cands: &Vec<Lch>) -> (r: Lch)
    requires
        all_wf(cands@),
    ensures
        r.wf(),
        dark_base_spec(cands@, r),
{
    if cands.len() == 0 {
        return Lch::new(FALLBACK_DARK_L, 0, 0);
    }
    let mut j: usize = 0;
    let mut i: usize = 1;
    while i < cands.len()
        invariant
            1 <= i <= cands.len(),
            j < i,
            forall|m: int| 0 <= m < i ==> cands@[j as int].l <= (#[trigger] cands@[m]).l,
            forall|m: int| 0 <= m < j ==> cands@[j as int].l < (#[trigger] cands@[m]).l,
        decreases cands.len() - i,
    {
        if cands[i].l < cands[j].l {
            j = i;
        }
        i += 1;
    }
    assert(is_darkest(cands@, j as int));
    cands[j]
}

/// The lightest candidate by lightness (the last of equals), or the fallback.
pub fn lightest_candidate(cands: &Vec<Lch>) -> (r: Lch)
    requires
        all_wf(cands@),
    ensures
        r.wf(),
        light_base_spec(cands@, r),
{
    if cands.len() == 0 {
        return Lch::new(FALLBACK_LIGHT_L, 0, 0);
    }
    let mut j: usize = 0;
    let mut i: usize = 1;
    while i < cands.len()
        invariant
            1 <= i <= cands.len(),
            j < i,
            forall|m: int| 0 <= m < i ==> (#[trigger] cands@[m]).l <= cands@[j as int].l,
            forall|m: int| j < m < i ==> (#[trigger] cands@[m]).l < cands@[j as int].l,
        decreases cands.len() - i,
    {
        if cands[i].l >= cands[j].l {
            j = i;
        }
        i += 1;
    }
    assert(is_lightest(cands@, j as int));
    cands[j]
}

fn min_of(a: u32, b: u32) -> (r: u32)
    ensures
        r == min_u(a, b),
{
    if a <= b { a } else { b }
}

fn max_of(a: u32, b: u32) -> (r: u32)
    ensures
        r == max_u(a, b),
{
    if a >= b { a } else { b }
}

/// Base slots 0, 7, 8 and 15, in that order, for the given mode.
pub fn base_targets(cands: &Vec<Lch>, mode: ThemeMode) -> (r: [Lch; 4])
    requires
        all_wf(cands@),
    ensures
        forall|i: int| 0 <= i < 4 ==> (#[trigger] r[i]).wf(),
        exists|dark: Lch, light: Lch|
            dark_base_spec(cands@, dark) && light_base_spec(cands@, light) && r@ == base_slots(
                dark,
                light,
                mode,
            ),
{
    let dark = darkest_candidate(cands);
    let light = lightest_candidate(cands);
    let r = match mode {
        ThemeMode::Dark => [
            Lch::new(min_of(dark.l, FALLBACK_DARK_L), min_of(dark.c, BASE_MAX_CHROMA), dark.h),
            Lch::new(8500, min_of(light.c, TEXT_MAX_CHROMA), light.h),
            Lch::new(4000, min_of(dark.c, BASE_MAX_CHROMA), dark.h),
            Lch::new(FALLBACK_LIGHT_L, min_of(light.c, TEXT_MAX_CHROMA), light.h),
        ],
        ThemeMode::Light => [
            Lch::new(max_of(light.l, FALLBACK_LIGHT_L), min_of(light.c, TEXT_MAX_CHROMA), light.h),
            Lch::new(2000, min_of(dark.c, TEXT_MAX_CHROMA), dark.h),
            Lch::new(6000, min_of(light.c, BASE_MAX_CHROMA), light.h),
            Lch::new(min_of(dark.l, FALLBACK_DARK_L), min_of(dark.c, TEXT_MAX_CHROMA), dark.h),
        ],
    };
    assert(r@ =~= base_slots(dark, light, mode));
    r
}

/// The bright variant of an accent: lightness raised by `BRIGHT_L_DELTA`, clamped to 1.
pub open spec fn bright_of(c: Lch) -> Lch {
    Lch { l: clamp_light(c.l + BRIGHT_L_DELTA) as u32, c: c.c, h: c.h }
}

/// Selection background from the blue accent: lightness moved by 0.1 toward the
/// mode's opposite pole, chroma scaled to 60% with a floor of 0.01.
pub open spec fn selection_of(blue: Lch, mode: ThemeMode) -> Lch {
    Lch {
        l: match mode {
            ThemeMode::Dark => clamp_light(blue.l + SELECTION_L_DELTA) as u32,
            ThemeMode::Light => clamp_light(blue.l - SELECTION_L_DELTA) as u32,
        },
        c: max_u((blue.c * 6 / 10) as u32, SELECTION_MIN_CHROMA),
        h: blue.h,
    }
}

/// Bright variants of the six accents (slots 9 to 14), in slot order.
pub fn bright_targets(accents: [Lch; 6]) -> (r: [Lch; 6])
    requires
        forall|i: int| 0 <= i < 6 ==> (#[trigger] accents[i]).wf(),
    ensures
        forall|i: int| 0 <= i < 6 ==> (#[trigger] r[i]).wf() && r[i] == bright_of(accents[i]),
{
    let mut r = accents;
    let mut i: usize = 0;
    while i < 6
        invariant
            i <= 6,
            forall|m: int| 0 <= m < 6 ==> (#[trigger] accents[m]).wf(),
            forall|m: int| 0 <= m < i ==> (#[trigger] r[m]).wf() && r[m] == bright_of(accents[m]),
        decreases 6 - i,
    {
        r[i] = accents[i].shift_lightness(BRIGHT_L_DELTA as i32);
        i += 1;
    }
    r
}

/// The selection background for the given blue accent and mode.
pub fn selection_target(blue: Lch, mode: ThemeMode) -> (r: Lch)
    requires
        blue.wf(),
    ensures
        r.wf(),
        r == selection_of(blue, mode),
{
    let shifted = match mode {
        ThemeMode::Dark => blue.shift_lightness(SELECTION_L_DELTA as i32),
        ThemeMode::Light => blue.shift_lightness(-(SELECTION_L_DELTA as i32)),
    };
    let c = max_of(blue.c * 6 / 10, SELECTION_MIN_CHROMA);
    Lch::new(shifted.l, c, blue.h)
}

/// The sixteen slots: base colors for 0, 7, 8, 15 (in that order in `base`),
/// accents for 1 to 6, bright accents for 9 to 14.
pub open spec fn slots_placed(s: Seq<Color>, base: [Color; 4], accents: [Color; 6], brights: [Color; 6]) -> bool {
    &&& s.len() == 16
    &&& s[0] == base[0]
    &&& s[7] == base[1]
    &&& s[8] == base[2]
    &&& s[15] == base[3]
    &&& forall|i: int| 1 <= i <= 6 ==> s[i] == #[trigger] accents[i - 1]
    &&& forall|i: int| 9 <= i <= 14 ==> s[i] == #[trigger] brights[i - 9]
}

/// Places base, accent and bright colors at their ANSI slot indices.
pub fn build_slots(base: [Color; 4], accents: [Color; 6], brights: [Color; 6]) -> (r: [Color; 16])
    ensures
        slots_placed(r@, base, accents, brights),
{
    let mut r = [Color::new(0, 0, 0); 16];
    r[0] = base[0];
    r[7] = base[1];
    r[8] = base[2];
    r[15] = base[3];
    let mut i: usize = 0;
    while i < 6
        invariant
            i <= 6,
            r[0] == base[0],
            r[7] == base[1],
            r[8] == base[2],
            r[15] == base[3],
            forall|m: int| 0 <= m < i ==> r[m + 1] == #[trigger] accents[m],
            forall|m: int| 0 <= m < i ==> r[m + 9] == #[trigger] brights[m],
        decreases 6 - i,
    {
        r[i + 1] = accents[i];
        r[i + 9] = brights[i];
        i += 1;
    }
    assert forall|i: int| 1 <= i <= 6 implies r@[i] == #[trigger] accents[i - 1] by {
        assert(r[(i - 1) + 1] == accents[i - 1]);
    }
    assert forall|i: int| 9 <= i <= 14 implies r@[i] == #[trigger] brights[i - 9] by {
        assert(r[(i - 9) + 9] == brights[i - 9]);
    }
    r
}

/// The special colors follow the slots: background is slot 0, foreground is
/// slot 15, the cursor and the selection text repeat them.
pub open spec fn derived_ok(p: AnsiPalette) -> bool {
    &&& p.background == p.slots[0]
    &&& p.foreground == p.slots[15]
    &&& p.cursor_color == p.foreground
    &&& p.cursor_text == p.background
    &&& p.selection_fg == p.foreground
}

/// The palette with its special colors derived from `slots` and the selection
/// background computed from slot 4.
pub fn derive_special_colors(slots: [Color; 16], selection_bg: Color) -> (p: AnsiPalette)
    ensures
        p.slots == slots,
        p.selection_bg == selection_bg,
        derived_ok(p),
{
    let background = slots[0];
    let foreground = slots[15];
    AnsiPalette {
        slots,
        background,
        foreground,
        cursor_color: foreground,
        cursor_text: background,
        selection_bg,
        selection_fg: foreground,
    }
}

/// Hue fidelity of an accent: its hue lies within 60° of the target, no farther
/// from the target than any chromatic candidate, and exactly on the target when
/// no candidate is chromatic or the nearest one was rotated.
pub proof fn lemma_accent_hue_fidelity(cands: Seq<Lch>, target: u32, r: Lch)
    requires
        all_wf(cands),
        target < FULL_TURN,
        accent_spec(cands, target, r),
    ensures
        hue_dist(r.h as int, target as int) <= MAX_HUE_DISTANCE,
        forall|i: int|
            0 <= i < cands.len() && is_chromatic(#[trigger] cands[i]) ==> hue_dist(r.h as int, target as int)
                <= hue_dist(cands[i].h as int, target as int),
        !has_chromatic(cands) ==> r.h == target,
        r.h != target ==> has_chromatic(cands) && exists|j: int| is_closest(cands, target, j) && r == #[trigger] cands[j],
{
    if has_chromatic(cands) {
        let j = choose|j: int| is_closest(cands, target, j) && r == accent_from(#[trigger] cands[j], target);
        assert(hue_dist(target as int, target as int) == 0);
    } else {
        assert(hue_dist(target as int, target as int) == 0);
    }
}

/// A bright variant is strictly lighter than its accent unless the accent is
/// already at full lightness.
pub proof fn lemma_bright_is_lighter(c: Lch)
    requires
        c.wf(),
        c.l < LIGHT_MAX,
    ensures
        bright_of(c).l > c.l,
        bright_of(c).c == c.c,
        bright_of(c).h == c.h,
{
}

/// Mode inversion of the base slots: in dark mode slot 0 has lightness at most
/// 0.15 and slot 15 exactly 0.93; in light mode slot 0 has lightness at least
/// 0.93 and slot 15 at most 0.15.
pub proof fn lemma_mode_inversion(dark: Lch, light: Lch, mode: ThemeMode)
    ensures
        mode == ThemeMode::Dark ==> base_slots(dark, light, mode)[0].l <= FALLBACK_DARK_L
            && base_slots(dark, light, mode)[3].l == FALLBACK_LIGHT_L,
        mode == ThemeMode::Light ==> base_slots(dark, light, mode)[0].l >= FALLBACK_LIGHT_L
            && base_slots(dark, light, mode)[3].l <= FALLBACK_DARK_L,
{
}

} // verus!
