use vstd::prelude::*;

verus! {

/// `_NET_WM_STATE_ADD`: the action word that asks the window manager to add states.
pub const NET_WM_STATE_ADD: u32 = 1;

/// The data words of the `_NET_WM_STATE` client messages that ask the
/// window manager to keep a window above the others and out of the taskbar
/// and pager. A message carries at most two states, so there are two.
pub fn above_state_messages(above: u32, skip_taskbar: u32, skip_pager: u32) -> (msgs: Vec<[u32; 5]>)
    ensures
        msgs@.len() == 2,
        msgs@[0]@ == seq![NET_WM_STATE_ADD, above, 0u32, 0u32, 0u32],
        msgs@[1]@ == seq![NET_WM_STATE_ADD, skip_taskbar, skip_pager, 0u32, 0u32],
{
    let mut msgs: Vec<[u32; 5]> = Vec::new();
    let first: [u32; 5] = [NET_WM_STATE_ADD, above, 0, 0, 0];
    let second: [u32; 5] = [NET_WM_STATE_ADD, skip_taskbar, skip_pager, 0, 0];
    msgs.push(first);
    msgs.push(second);
    assert(msgs@[0]@ =~= seq![NET_WM_STATE_ADD, above, 0u32, 0u32, 0u32]);
    assert(msgs@[1]@ =~= seq![NET_WM_STATE_ADD, skip_taskbar, skip_pager, 0u32, 0u32]);
    msgs
}

} // verus!
