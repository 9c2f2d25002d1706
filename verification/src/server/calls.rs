//! What the tools' plans do: which key or button they act on, in which order, and for how long.

use vstd::prelude::*;

use crate::error::ToolError;
use crate::input::layout::{
    law_directions_are_the_wasd_keys, law_letters_and_digits_reach_their_own_virtual_keys,
};
use crate::input::{
    char_code, key_code, law_every_key_has_a_virtual_key, Backend, Button, Direction, InputAction,
};
use crate::server::{
    after_hold, button_named, button_text, click_steps, down_after, hold_action_named, hold_steps,
    GameServer, HoldAction, InputPlan, MovePlayerArgs, PressKeyArgs,
};
use crate::state::{law_release_clears_only_the_named_button, lemma_position_of, position_of};
use crate::text::{ascii_lower_char, ascii_lowercase};

verus! {

/// A player move presses the key of its direction, W, A, S or D, holds it and releases it again:
/// for the requested duration up to the limit, half a second without a request. Only a name of
/// no direction is refused.
pub proof fn law_player_moves_hold_the_key_of_their_direction(
    server: GameServer,
    r: Result<InputPlan, ToolError>,
    args: MovePlayerArgs,
    lower: Seq<char>,
    letter: char,
)
    requires
        server.plans_player_move(r, args, lower),
        ({
            ||| letter == 'W' && (lower == "forward"@ || lower == "up"@ || lower == "w"@)
            ||| letter == 'A' && (lower == "left"@ || lower == "a"@)
            ||| letter == 'S' && (lower == "back"@ || lower == "backward"@ || lower == "down"@
                || lower == "s"@)
            ||| letter == 'D' && (lower == "right"@ || lower == "d"@)
        }),
    ensures
        r is Ok,
        ({
            let actions = r->Ok_0.actions@;
            let limit = server.limits.max_hold_ms;
            let code = match server.backend {
                Backend::InputSimulator => letter as u16,
                Backend::Enigo => char_code(letter)->0,
            };
            let millis = actions[1]->millis;
            &&& actions.len() == 3
            &&& actions[0] == (InputAction::Raw { code, direction: Direction::Press })
            &&& actions[1] == (InputAction::Sleep { millis })
            &&& actions[2] == (InputAction::Raw { code, direction: Direction::Release })
            &&& args.duration_ms matches Some(asked) ==> (asked <= limit ==> millis == asked)
            &&& args.duration_ms matches Some(asked) ==> (asked > limit ==> millis == limit)
            &&& args.duration_ms is None ==> (limit >= 500 ==> millis == 500)
            &&& args.duration_ms is None ==> (limit < 500 ==> millis == limit)
        }),
{
    law_directions_are_the_wasd_keys(lower);
    law_letters_and_digits_reach_their_own_virtual_keys(letter, ascii_lower_char(letter));
}

/// A direction of no known name is refused, and nothing is sent.
pub proof fn law_unknown_directions_are_refused(
    server: GameServer,
    r: Result<InputPlan, ToolError>,
    args: MovePlayerArgs,
    lower: Seq<char>,
)
    requires
        server.plans_player_move(r, args, lower),
        lower != "forward"@ && lower != "up"@ && lower != "w"@ && lower != "left"@ && lower
            != "a"@ && lower != "back"@ && lower != "backward"@ && lower != "down"@ && lower != "s"@
            && lower != "right"@ && lower != "d"@,
    ensures
        r is Err,
{
}

/// A key press presses one key, holds it and releases the same key again: for the requested
/// duration up to the limit, 50 milliseconds without a request. A letter or digit is the key of
/// that character. A name is refused exactly when it is no key's, under either backend.
pub proof fn law_key_presses_hold_their_key(
    server: GameServer,
    r: Result<InputPlan, ToolError>,
    args: PressKeyArgs,
    lower: Seq<char>,
)
    requires
        server.plans_key_press(r, args, lower),
    ensures
        r is Ok <==> key_code(args.key@, lower) is Some,
        r matches Ok(plan) ==> {
            let actions = plan.actions@;
            let limit = server.limits.max_hold_ms;
            let code = actions[0]->code;
            let millis = actions[1]->millis;
            &&& actions.len() == 3
            &&& actions[0] == (InputAction::Raw { code, direction: Direction::Press })
            &&& actions[1] == (InputAction::Sleep { millis })
            &&& actions[2] == (InputAction::Raw { code, direction: Direction::Release })
            &&& server.backend == Backend::Enigo ==> key_code(args.key@, lower) == Some(code)
            &&& args.duration_ms matches Some(asked) ==> (asked <= limit ==> millis == asked)
            &&& args.duration_ms matches Some(asked) ==> (asked > limit ==> millis == limit)
            &&& args.duration_ms is None ==> (limit >= 50 ==> millis == 50)
            &&& args.duration_ms is None ==> (limit < 50 ==> millis == limit)
        },
        forall|c: char|
            ('A' <= c <= 'Z' || '0' <= c <= '9') && args.key@.len() == 1 && #[trigger]
            ascii_lower_char(c) == ascii_lower_char(args.key@[0]) ==> {
                &&& r is Ok
                &&& server.backend == Backend::InputSimulator ==> r->Ok_0.actions@[0]->code
                    == c as u16
                &&& server.backend == Backend::Enigo ==> Some(r->Ok_0.actions@[0]->code)
                    == char_code(c)
            },
{
    law_every_key_has_a_virtual_key(args.key@, lower);
    assert forall|c: char|
        ('A' <= c <= 'Z' || '0' <= c <= '9') && args.key@.len() == 1 && #[trigger]
        ascii_lower_char(c) == ascii_lower_char(args.key@[0]) implies {
            &&& r is Ok
            &&& server.backend == Backend::InputSimulator ==> r->Ok_0.actions@[0]->code == c as u16
            &&& server.backend == Backend::Enigo ==> Some(r->Ok_0.actions@[0]->code) == char_code(c)
        } by {
        law_letters_and_digits_reach_their_own_virtual_keys(c, args.key@[0]);
        crate::input::layout::law_different_characters_are_different_keys(c, args.key@[0]);
    }
}

/// A hold presses its button, waits for the whole duration and releases the button; a press only
/// presses it and a release only releases it. No other button is touched.
pub proof fn law_hold_steps_act_on_their_own_button(
    button: Button,
    action: HoldAction,
    millis: u64,
)
    ensures
        ({
            let steps = hold_steps(button, action, millis);
            let pressed = InputAction::MouseButton { button, direction: Direction::Press };
            let released = InputAction::MouseButton { button, direction: Direction::Release };
            &&& action != HoldAction::Release <==> steps.first() == pressed
            &&& action != HoldAction::Press <==> steps.last() == released
            &&& action == HoldAction::Hold ==> steps.len() == 3 && steps[1]
                == (InputAction::Sleep { millis })
            &&& action != HoldAction::Hold ==> steps.len() == 1
        }),
{
}

/// A button counts as down after some steps of a hold action exactly when the last of them that
/// acted on it pressed it. Before the first one it is down if it is to be released.
pub proof fn law_buttons_are_down_from_their_press_to_their_release(
    button: Button,
    action: HoldAction,
    millis: u64,
    sent: nat,
)
    requires
        sent <= hold_steps(button, action, millis).len(),
    ensures
        ({
            let steps = hold_steps(button, action, millis);
            let pressed = InputAction::MouseButton { button, direction: Direction::Press };
            let released = InputAction::MouseButton { button, direction: Direction::Release };
            &&& sent == 0 ==> (down_after(action, sent) <==> steps.first() == released)
            &&& sent > 0 ==> (down_after(action, sent) <==> steps.first() == pressed && forall|
                i: int,
            |
                0 <= i < sent ==> #[trigger] steps[i] != released)
        }),
{
    let steps = hold_steps(button, action, millis);
    let released = InputAction::MouseButton { button, direction: Direction::Release };
    if action == HoldAction::Hold && sent == 3 {
        assert(steps[2] == released);
    }
    if action == HoldAction::Release && sent == 1 {
        assert(steps[0] == released);
    }
}

/// A button stays recorded exactly while it is down, and no other button is forgotten.
pub proof fn law_only_a_button_that_is_up_is_forgotten(
    held: Seq<Button>,
    button: Button,
    action: HoldAction,
    sent: nat,
    other: Button,
)
    requires
        held.no_duplicates(),
    ensures
        after_hold(held, button, action, sent).contains(button) <==> held.contains(button)
            && down_after(action, sent),
        other != button ==> (after_hold(held, button, action, sent).contains(other)
            <==> held.contains(other)),
{
    if !down_after(action, sent) && held.contains(button) {
        let at = position_of(held, button);
        let after = held.remove(at);
        lemma_position_of(held, button);
        assert(!after.contains(button)) by {
            if after.contains(button) {
                let k = choose|k: int| 0 <= k < after.len() && after[k] == button;
                if k < at {
                    assert(held[k] == button);
                } else {
                    assert(held[k + 1] == button);
                }
            }
        }
        if other != button {
            law_release_clears_only_the_named_button(held, button, other);
        }
    }
}

/// A click acts on its button once, a double click twice with a short pause in between.
pub proof fn law_clicks_act_on_their_own_button(button: Button, double: bool)
    ensures
        ({
            let steps = click_steps(button, double);
            let click = InputAction::MouseButton { button, direction: Direction::Click };
            &&& steps.len() == if double {
                3nat
            } else {
                1nat
            }
            &&& steps.first() == click
            &&& steps.last() == click
            &&& double ==> steps[1] == (InputAction::Sleep { millis: 50 })
        }),
{
}

/// A button answers to its name in the messages, in lower case, and to no other; only the left,
/// the right and the middle one can be named.
pub proof fn law_buttons_answer_to_their_own_names(lower: Seq<char>, button: Button)
    ensures
        button_named(lower) == Some(button) <==> lower == ascii_lowercase(button_text(button)) && (
        button == Button::Left || button == Button::Right || button == Button::Middle),
{
    reveal_strlit("left");
    reveal_strlit("right");
    reveal_strlit("middle");
    reveal_strlit("Left");
    reveal_strlit("Right");
    reveal_strlit("Middle");
    assert(ascii_lowercase("Left"@) =~= "left"@);
    assert(ascii_lowercase("Right"@) =~= "right"@);
    assert(ascii_lowercase("Middle"@) =~= "middle"@);
    assert("left"@.len() == 4 && "right"@.len() == 5 && "middle"@.len() == 6);
}

} // verus!
