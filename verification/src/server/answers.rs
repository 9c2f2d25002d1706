//! What the tools' answers say of the values they were given.

use vstd::prelude::*;

use crate::games::{GameProfile, Resolution};
use crate::input::layout::law_decimal_reads_back;
use crate::input::{all_digits, digits_value};
use crate::server::{
    ability_text, combat_text, farm_minutes, farm_prompt, farm_target, farm_threshold,
    percent_text, scrolled_text, telemetry_text, waited_text, was_read, zone_text, StartFarmArgs,
};
use crate::state::{GameMetrics, PixelGrid, SessionState};
use crate::text::{
    contains_text, decimal, law_replacing_fills_in, law_replacing_nothing_keeps_the_text, occurs_at,
    replaced,
};

verus! {

/// A part of a text stands in it.
proof fn lemma_part_of_a_text(before: Seq<char>, part: Seq<char>, after: Seq<char>)
    ensures
        contains_text(before + part + after, part),
{
    let text = before + part + after;
    assert(text.subrange(before.len() as int, (before.len() + part.len()) as int) =~= part);
    assert(occurs_at(text, part, before.len() as int));
}

/// Texts may be joined in either order.
proof fn lemma_regrouped(a: Seq<char>, b: Seq<char>, c: Seq<char>)
    ensures
        a + (b + c) == a + b + c,
{
    assert(a + (b + c) =~= a + b + c);
}

/// A value stands between its own label and the next one.
proof fn lemma_labelled(
    before: Seq<char>,
    label: Seq<char>,
    value: Seq<char>,
    next: Seq<char>,
    after: Seq<char>,
)
    ensures
        contains_text(before + label + value + next + after, label + value + next),
{
    assert(before + label + value + next + after =~= before + (label + value + next) + after);
    lemma_part_of_a_text(before, label + value + next, after);
}

/// A percentage reads back as the number before the percent sign; only a negative one is
/// unknown.
pub proof fn law_percentages_read_back(value: i32)
    ensures
        value < 0 ==> percent_text(value) == "?"@,
        value >= 0 ==> {
            let text = percent_text(value);
            &&& text.len() > 1
            &&& text.last() == '%'
            &&& all_digits(text.drop_last())
            &&& digits_value(text.drop_last()) == value
        },
{
    reveal_strlit("%");
    if value >= 0 {
        law_decimal_reads_back(value as nat);
        assert(percent_text(value).drop_last() =~= decimal(value as int));
    }
}

/// The telemetry text shows every value behind its own label, from the health to the zone.
pub proof fn law_telemetry_shows_each_value_behind_its_own_label(m: GameMetrics)
    ensures
        ({
            let text = telemetry_text(m);
            let ready = |flag: bool|
                if flag {
                    "READY"@
                } else {
                    "COOLDOWN"@
                };
            &&& m.player_hp >= 0 ==> contains_text(
                text,
                "[HP: "@ + decimal(m.player_hp as int) + "%"@ + " | Stamina: "@,
            )
            &&& m.player_hp < 0 ==> contains_text(text, "[HP: "@ + "?"@ + " | Stamina: "@)
            &&& m.stamina >= 0 ==> contains_text(
                text,
                " | Stamina: "@ + decimal(m.stamina as int) + "%"@ + " | Q: "@,
            )
            &&& m.stamina < 0 ==> contains_text(text, " | Stamina: "@ + "?"@ + " | Q: "@)
            &&& contains_text(text, " | Q: "@ + ready(m.q_ready) + " | R: "@)
            &&& contains_text(text, " | R: "@ + ready(m.r_ready) + " | F: "@)
            &&& contains_text(text, " | F: "@ + ready(m.f_ready) + " | G: "@)
            &&& contains_text(text, " | G: "@ + ready(m.g_ready) + " | Combat: "@)
            &&& contains_text(text, " | Combat: "@ + (if m.in_combat {
                "IN"@
            } else {
                "OUT"@
            }) + " | Zone: "@)
            &&& m.location@.len() > 0 ==> contains_text(text, " | Zone: "@ + m.location@ + "]"@)
            &&& m.location@.len() == 0 ==> contains_text(text, " | Zone: "@ + "Unknown"@ + "]"@)
        }),
{
    let text = telemetry_text(m);
    let hp = percent_text(m.player_hp);
    let stamina = percent_text(m.stamina);
    let q = ability_text(m.q_ready);
    let r = ability_text(m.r_ready);
    let f = ability_text(m.f_ready);
    let g = ability_text(m.g_ready);
    let combat = combat_text(m.in_combat);
    let zone = zone_text(m.location@);
    // The text up to each part.
    let h0 = Seq::<char>::empty();
    let h1 = "[HP: "@;
    let h2 = h1 + hp;
    let h3 = h2 + " | Stamina: "@;
    let h4 = h3 + stamina;
    let h5 = h4 + " | Q: "@;
    let h6 = h5 + q;
    let h7 = h6 + " | R: "@;
    let h8 = h7 + r;
    let h9 = h8 + " | F: "@;
    let h10 = h9 + f;
    let h11 = h10 + " | G: "@;
    let h12 = h11 + g;
    let h13 = h12 + " | Combat: "@;
    let h14 = h13 + combat;
    let h15 = h14 + " | Zone: "@;
    let h16 = h15 + zone;
    // And the text from each part on.
    let t17 = Seq::<char>::empty();
    let t16 = "]"@;
    let t15 = zone + t16;
    let t14 = " | Zone: "@ + t15;
    let t13 = combat + t14;
    let t12 = " | Combat: "@ + t13;
    let t11 = g + t12;
    let t10 = " | G: "@ + t11;
    let t9 = f + t10;
    let t8 = " | F: "@ + t9;
    let t7 = r + t8;
    let t6 = " | R: "@ + t7;
    let t5 = q + t6;
    let t4 = " | Q: "@ + t5;
    let t3 = stamina + t4;
    let t2 = " | Stamina: "@ + t3;
    lemma_regrouped(h15, zone, t16);
    lemma_regrouped(h14, " | Zone: "@, t15);
    lemma_regrouped(h13, combat, t14);
    lemma_regrouped(h12, " | Combat: "@, t13);
    lemma_regrouped(h11, g, t12);
    lemma_regrouped(h10, " | G: "@, t11);
    lemma_regrouped(h9, f, t10);
    lemma_regrouped(h8, " | F: "@, t9);
    lemma_regrouped(h7, r, t8);
    lemma_regrouped(h6, " | R: "@, t7);
    lemma_regrouped(h5, q, t6);
    lemma_regrouped(h4, " | Q: "@, t5);
    lemma_regrouped(h3, stamina, t4);
    lemma_regrouped(h2, " | Stamina: "@, t3);
    assert(text == h2 + t2);
    assert(h0 + h1 =~= h1);
    lemma_labelled(h0, "[HP: "@, hp, " | Stamina: "@, t3);
    lemma_labelled(h2, " | Stamina: "@, stamina, " | Q: "@, t5);
    lemma_labelled(h4, " | Q: "@, q, " | R: "@, t7);
    lemma_labelled(h6, " | R: "@, r, " | F: "@, t9);
    lemma_labelled(h8, " | F: "@, f, " | G: "@, t11);
    lemma_labelled(h10, " | G: "@, g, " | Combat: "@, t13);
    lemma_labelled(h12, " | Combat: "@, combat, " | Zone: "@, t15);
    lemma_labelled(h14, " | Zone: "@, zone, "]"@, t17);
    if m.player_hp >= 0 {
        lemma_regrouped("[HP: "@, decimal(m.player_hp as int), "%"@);
    }
    if m.stamina >= 0 {
        lemma_regrouped(" | Stamina: "@, decimal(m.stamina as int), "%"@);
    }
}

/// Metrics taken over from a reading keep every value of it, and the zone of the session.
pub proof fn law_readings_are_taken_over_under_the_zone_of_the_session(
    session: SessionState,
    pixels: PixelGrid,
    resolution: Resolution,
    metrics: GameMetrics,
)
    requires
        was_read(session, pixels, resolution, metrics),
    ensures
        metrics.location == session.current_metrics.location,
        exists|read: GameMetrics| #[trigger]
            session.active_game.reads(pixels, resolution, read) && {
                &&& metrics.player_hp == read.player_hp
                &&& metrics.stamina == read.stamina
                &&& metrics.q_ready == read.q_ready
                &&& metrics.r_ready == read.r_ready
                &&& metrics.f_ready == read.f_ready
                &&& metrics.g_ready == read.g_ready
                &&& metrics.in_combat == read.in_combat
            },
{
}

/// The values filled into a farming prompt: the given mob type, duration and threshold, within
/// 0 and 100 percent, or the defaults.
pub proof fn law_farming_prompts_use_the_given_values(args: StartFarmArgs)
    ensures
        args.target matches Some(target) ==> (target@.len() > 0 ==> farm_target(args.target)
            == target@),
        args.target matches Some(target) ==> (target@.len() == 0 ==> farm_target(args.target)
            == "any nearby mob"@),
        args.target is None ==> farm_target(args.target) == "any nearby mob"@,
        args.duration_minutes matches Some(minutes) ==> farm_minutes(args.duration_minutes)
            == minutes,
        args.duration_minutes is None ==> farm_minutes(args.duration_minutes) == 10,
        0 <= farm_threshold(args.potion_threshold) <= 100,
        args.potion_threshold matches Some(percent) ==> (0 <= percent <= 100 ==> farm_threshold(
            args.potion_threshold,
        ) == percent),
        args.potion_threshold matches Some(percent) ==> (percent <= 0 ==> farm_threshold(
            args.potion_threshold,
        ) == 0),
        args.potion_threshold matches Some(percent) ==> (percent >= 100 ==> farm_threshold(
            args.potion_threshold,
        ) == 100),
        args.potion_threshold is None ==> farm_threshold(args.potion_threshold) == 30,
{
}

/// A placeholder that is named differently from every one in the text does not stand in it.
proof fn lemma_other_placeholder(
    before: Seq<char>,
    placeholder: Seq<char>,
    after: Seq<char>,
    pattern: Seq<char>,
)
    requires
        !before.contains('{'),
        !contains_text(after, pattern),
        placeholder.len() > 1,
        pattern.len() > 1,
        pattern[0] == '{',
        placeholder[1] != pattern[1],
        forall|i: int| 0 < i < placeholder.len() ==> placeholder[i] != '{',
    ensures
        !contains_text(before + placeholder + after, pattern),
{
    let text = before + placeholder + after;
    assert forall|i: int| !occurs_at(text, pattern, i) by {
        if occurs_at(text, pattern, i) {
            let found = text.subrange(i, i + pattern.len());
            assert(found[0] == '{' && found[1] == pattern[1]);
            assert(text[i] == '{' && text[i + 1] == pattern[1]);
            if i < before.len() {
                assert(before[i] == '{');
            } else if i < before.len() + placeholder.len() {
                assert(placeholder[i - before.len()] == '{');
            } else {
                let j = i - before.len() - placeholder.len();
                assert(after.subrange(j, j + pattern.len()) =~= found);
                assert(occurs_at(after, pattern, j));
            }
        }
    }
}

/// The first placeholder of a text is filled in.
proof fn lemma_first_placeholder(
    before: Seq<char>,
    pattern: Seq<char>,
    after: Seq<char>,
    with: Seq<char>,
)
    requires
        !before.contains('{'),
        pattern.len() > 0,
        pattern[0] == '{',
        !contains_text(after, pattern),
    ensures
        replaced(before + pattern + after, pattern, with) == before + with + after,
{
    let text = before + pattern + after;
    assert forall|i: int| 0 <= i < before.len() implies !#[trigger] occurs_at(text, pattern, i) by {
        if occurs_at(text, pattern, i) {
            assert(text.subrange(i, i + pattern.len())[0] == '{');
            assert(before[i] == '{');
        }
    }
    law_replacing_fills_in(before, pattern, after, with);
    law_replacing_nothing_keeps_the_text(after, pattern, with);
}

/// A text without an opening brace holds no placeholder.
proof fn lemma_no_placeholder(text: Seq<char>, pattern: Seq<char>)
    requires
        !text.contains('{'),
        pattern.len() > 0,
        pattern[0] == '{',
    ensures
        !contains_text(text, pattern),
{
    assert forall|i: int| !occurs_at(text, pattern, i) by {
        if occurs_at(text, pattern, i) {
            assert(text.subrange(i, i + pattern.len())[0] == '{');
            assert(text[i] == '{');
        }
    }
}

/// A decimal numeral holds no brace.
proof fn lemma_numerals_have_no_brace(n: int)
    requires
        n >= 0,
    ensures
        !decimal(n).contains('{'),
{
    law_decimal_reads_back(n as nat);
    let text = decimal(n);
    assert forall|i: int| 0 <= i < text.len() implies text[i] != '{' by {
        assert('0' <= text[i] && text[i] <= '9');
    }
}

/// A farming prompt is its template with the mob type, the minutes and the percentage standing
/// where their placeholders stood, and everything else as it was.
pub proof fn law_farming_prompts_fill_in_their_placeholders(
    a: Seq<char>,
    b: Seq<char>,
    c: Seq<char>,
    d: Seq<char>,
    args: StartFarmArgs,
)
    requires
        !a.contains('{'),
        !b.contains('{'),
        !c.contains('{'),
        !d.contains('{'),
        !farm_target(args.target).contains('{'),
    ensures
        farm_prompt(
            a + "{target}"@ + (b + "{duration}"@ + (c + "{potion_threshold}"@ + d)),
            args,
        ) == a + farm_target(args.target) + b + decimal(farm_minutes(args.duration_minutes)) + c
            + decimal(farm_threshold(args.potion_threshold)) + d,
{
    reveal_strlit("{target}");
    reveal_strlit("{duration}");
    reveal_strlit("{potion_threshold}");
    let target = farm_target(args.target);
    let minutes = decimal(farm_minutes(args.duration_minutes));
    let threshold = decimal(farm_threshold(args.potion_threshold));
    lemma_numerals_have_no_brace(farm_minutes(args.duration_minutes));
    let end = c + "{potion_threshold}"@ + d;
    let rest = b + "{duration}"@ + end;
    lemma_no_placeholder(d, "{target}"@);
    lemma_no_placeholder(d, "{duration}"@);
    lemma_no_placeholder(d, "{potion_threshold}"@);
    lemma_other_placeholder(c, "{potion_threshold}"@, d, "{target}"@);
    lemma_other_placeholder(b, "{duration}"@, end, "{target}"@);
    lemma_first_placeholder(a, "{target}"@, rest, target);
    let named = a + target + b;
    assert(!named.contains('{')) by {
        assert forall|i: int| 0 <= i < named.len() implies named[i] != '{' by {
            if i < a.len() {
                assert(a[i] != '{');
            } else if i < a.len() + target.len() {
                assert(target[i - a.len()] != '{');
            } else {
                assert(b[i - a.len() - target.len()] != '{');
            }
        }
    }
    assert(a + target + rest =~= named + "{duration}"@ + end);
    lemma_other_placeholder(c, "{potion_threshold}"@, d, "{duration}"@);
    lemma_first_placeholder(named, "{duration}"@, end, minutes);
    let timed = named + minutes + c;
    assert(!timed.contains('{')) by {
        assert forall|i: int| 0 <= i < timed.len() implies timed[i] != '{' by {
            if i < named.len() {
                assert(named[i] != '{');
            } else if i < named.len() + minutes.len() {
                assert(minutes[i - named.len()] != '{');
            } else {
                assert(c[i - named.len() - minutes.len()] != '{');
            }
        }
    }
    assert(named + minutes + end =~= timed + "{potion_threshold}"@ + d);
    lemma_first_placeholder(timed, "{potion_threshold}"@, d, threshold);
    assert(timed + threshold + d =~= a + target + b + minutes + c + threshold + d);
}

/// A scroll is reported with its number of clicks and the way it went: up for a positive amount
/// and for none, down for a negative one.
pub proof fn law_scrolls_are_reported_with_their_way(clicks: i32)
    requires
        clicks > 0,
    ensures
        scrolled_text(clicks) == "Scrolled "@ + decimal(clicks as int) + " clicks "@ + "up"@ + "."@,
        scrolled_text((-clicks) as i32) == "Scrolled "@ + decimal(clicks as int) + " clicks "@
            + "down"@ + "."@,
{
}

/// A wait is reported with its duration and its reason, if one was given.
pub proof fn law_waits_are_reported_with_their_reason(millis: u64, reason: String)
    ensures
        contains_text(waited_text(millis, Some(reason)), decimal(millis as int)),
        contains_text(waited_text(millis, None), decimal(millis as int)),
        contains_text(waited_text(millis, Some(reason)), reason@),
        reason@.len() == 0 ==> waited_text(millis, Some(reason)) == waited_text(millis, None),
{
    let number = decimal(millis as int);
    lemma_part_of_a_text("Waited "@, number, " ms"@ + "."@);
    lemma_regrouped("Waited "@ + number, " ms"@, "."@);
    if reason@.len() > 0 {
        lemma_part_of_a_text("Waited "@ + number + " ms"@ + ": "@, reason@, "."@);
        let tail = " ms"@ + ": "@ + reason@ + "."@;
        lemma_part_of_a_text("Waited "@, number, tail);
        assert("Waited "@ + number + tail =~= waited_text(millis, Some(reason)));
    } else {
        lemma_part_of_a_text(Seq::empty(), reason@, waited_text(millis, None));
        assert(Seq::<char>::empty() + reason@ + waited_text(millis, None) =~= waited_text(
            millis,
            None,
        ));
    }
}

} // verus!
