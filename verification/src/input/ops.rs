//! Input sequences shared by the tools, in the terms of the active backend.

use vstd::prelude::*;

use crate::input::{scancode_to_vk, virtual_key, Backend, Direction, InputAction};
use crate::text::{in_base, push_hex};

verus! {

/// Raw key code that `backend` takes for a scancode.
pub open spec fn backend_code(backend: Backend, scancode: u16) -> Option<u16> {
    match backend {
        Backend::Enigo => Some(scancode),
        Backend::InputSimulator => virtual_key(scancode),
    }
}

/// Reports whether `backend` can dispatch `scancode`.
///
/// The enigo backend accepts every Set 1 scancode; the input-simulator backend works in
/// virtual-key space, so a scancode with no virtual-key equivalent cannot be sent.
pub fn scancode_supported(backend: Backend, scancode: u16) -> (r: bool)
    ensures
        r == (backend_code(backend, scancode) is Some),
{
    match backend {
        Backend::Enigo => true,
        Backend::InputSimulator => scancode_to_vk(scancode).is_some(),
    }
}

/// Steps of a key held for `millis` milliseconds.
pub open spec fn key_hold(code: u16, millis: u64) -> Seq<InputAction> {
    seq![
        InputAction::Raw { code, direction: Direction::Press },
        InputAction::Sleep { millis },
        InputAction::Raw { code, direction: Direction::Release },
    ]
}

/// Why a scancode cannot be sent in virtual-key space.
pub open spec fn unmapped_scancode_text(scancode: u16) -> Seq<char> {
    "scancode 0x"@ + in_base(scancode as nat, 16) + " has no virtual-key equivalent"@
}

/// Presses a raw key, waits, then releases it.
///
/// `scancode` is a PS/2 Set 1 scancode; the enigo backend takes it as it is, the
/// input-simulator backend takes the virtual key it stands for.
pub fn hold_scancode(backend: Backend, scancode: u16, millis: u64) -> (r: Result<
    Vec<InputAction>,
    String,
>)
    ensures
        match r {
            Ok(steps) => backend_code(backend, scancode) is Some && steps@ == key_hold(
                backend_code(backend, scancode)->0,
                millis,
            ),
            Err(message) => backend_code(backend, scancode) is None && message@
                == unmapped_scancode_text(scancode),
        },
        backend == Backend::Enigo ==> r is Ok,
        backend == Backend::InputSimulator ==> (r is Ok <==> virtual_key(scancode) is Some),
        r matches Ok(steps) ==> {
            let code = match backend {
                Backend::Enigo => scancode,
                Backend::InputSimulator => virtual_key(scancode)->0,
            };
            &&& steps@.len() == 3
            &&& steps@[0] == (InputAction::Raw { code, direction: Direction::Press })
            &&& steps@[1] == (InputAction::Sleep { millis })
            &&& steps@[2] == (InputAction::Raw { code, direction: Direction::Release })
        },
{
    let code: u16 = match backend {
        Backend::Enigo => scancode,
        Backend::InputSimulator => match scancode_to_vk(scancode) {
            Some(code) => code,
            None => {
                let mut message: String = "scancode 0x".to_string();
                push_hex(&mut message, scancode as u64);
                message.append(" has no virtual-key equivalent");
                return Err(message);
            },
        },
    };
    let mut steps: Vec<InputAction> = Vec::new();
    steps.push(InputAction::Raw { code, direction: Direction::Press });
    steps.push(InputAction::Sleep { millis });
    steps.push(InputAction::Raw { code, direction: Direction::Release });
    assert(steps@ =~= key_hold(code, millis));
    Ok(steps)
}

/// Types a string of text via Unicode text events.
pub fn type_text(text: &str) -> (r: InputAction)
    ensures
        r matches InputAction::Text { text: typed } && typed@ == text@,
{
    InputAction::Text { text: text.to_string() }
}

/// Wheel length that `backend` takes to scroll up by `amount` clicks.
pub open spec fn scroll_length(backend: Backend, amount: int) -> int {
    match backend {
        Backend::Enigo => -amount,
        Backend::InputSimulator => amount,
    }
}

/// Scrolls the mouse wheel vertically by `amount` wheel clicks.
///
/// Positive amounts scroll up, negative amounts scroll down.
pub fn scroll_vertical(backend: Backend, amount: i32) -> (r: InputAction)
    requires
        backend == Backend::Enigo ==> amount != i32::MIN,
    ensures
        r matches InputAction::Scroll { length } && length == scroll_length(backend, amount as int),
        backend == Backend::InputSimulator ==> r == (InputAction::Scroll { length: amount }),
        backend == Backend::Enigo ==> (r matches InputAction::Scroll { length } && length + amount
            == 0),
{
    match backend {
        Backend::Enigo => InputAction::Scroll { length: -amount },
        Backend::InputSimulator => InputAction::Scroll { length: amount },
    }
}

/// The two backends turn the wheel by the same number of clicks for the same amount, with
/// opposite signs; the input simulator counts upwards.
pub proof fn law_backends_scroll_the_same_way(amount: int)
    ensures
        scroll_length(Backend::Enigo, amount) + scroll_length(Backend::InputSimulator, amount) == 0,
        scroll_length(Backend::InputSimulator, amount) == amount,
{
}

} // verus!
