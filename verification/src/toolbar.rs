use vstd::prelude::*;

use crate::input::{KeyName, KeyPress};
use crate::state::{AppModel, AppState, Color, StrokeWidth, Tool};

verus! {

impl AppModel {
    /// State with `tool` selected; nothing else changes.
    pub open spec fn with_tool(self, tool: Tool) -> AppModel {
        AppModel { active_tool: tool, ..self }
    }

    /// State with `color` chosen for new strokes; nothing else changes.
    pub open spec fn with_color(self, color: Color) -> AppModel {
        AppModel { active_color: color, ..self }
    }

    /// State with `width` chosen for new strokes; nothing else changes.
    pub open spec fn with_stroke_width(self, width: StrokeWidth) -> AppModel {
        AppModel { stroke_width: width, ..self }
    }
}

impl AppState {
    /// A tool button was clicked.
    pub fn select_tool(&mut self, tool: Tool)
        ensures
            final(self)@ == old(self)@.with_tool(tool),
    {
        self.active_tool = tool;
    }

    /// A colour was picked.
    pub fn set_color(&mut self, color: Color)
        ensures
            final(self)@ == old(self)@.with_color(color),
    {
        self.active_color = color;
    }

    /// A width button was clicked.
    pub fn set_stroke_width(&mut self, width: StrokeWidth)
        ensures
            final(self)@ == old(self)@.with_stroke_width(width),
    {
        self.stroke_width = width;
    }

    /// The draw-mode button was clicked; returns the new mode.
    pub fn toggle_draw_mode(&mut self) -> (draw_mode: bool)
        ensures
            final(self)@ == old(self)@.with_draw_mode_toggled(),
            draw_mode == !old(self).draw_mode,
    {
        self.draw_mode = !self.draw_mode;
        self.draw_mode
    }
}

/// Which tool buttons are highlighted: exactly those of the selected tool.
pub fn tool_button_states(tools: &Vec<Tool>, selected: Tool) -> (active: Vec<bool>)
    ensures
        active@.len() == tools@.len(),
        forall|i: int| 0 <= i < tools@.len() ==> active@[i] == (tools@[i] == selected),
{
    let mut active: Vec<bool> = Vec::new();
    let n = tools.len();
    let mut i: usize = 0;
    while i < n
        invariant
            n == tools@.len(),
            0 <= i <= n,
            active@.len() == i,
            forall|j: int| 0 <= j < i ==> active@[j] == (tools@[j] == selected),
        decreases n - i,
    {
        active.push(tools[i] == selected);
        i += 1;
    }
    active
}

/// The toolbar's own key handling: Ctrl+H (without Shift) hides a shown toolbar and shows a
/// hidden one. Returns the new visibility, or `None` when the key is not
/// the toolbar's.
pub fn toolbar_key(key: &KeyPress, visible: bool) -> (shown: Option<bool>)
    ensures
        shown == (if key.name == KeyName::H && key.ctrl && !key.shift {
            Some(!visible)
        } else {
            None
        }),
{
    if key.name == KeyName::H && key.ctrl && !key.shift {
        Some(!visible)
    } else {
        None
    }
}

} // verus!
