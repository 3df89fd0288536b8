use vstd::prelude::*;

verus! {

/// How strokes persist on screen.
#[derive(Debug)]
pub struct DrawingConfig {
    /// "permanent" or "fade" (fading is not implemented; kept for later).
    pub stroke_persistence: String,
}

impl Default for DrawingConfig {
    fn default() -> (c: DrawingConfig)
        ensures
            c.stroke_persistence@ == "permanent"@,
    {
        DrawingConfig { stroke_persistence: String::from_str("permanent") }
    }
}

/// Where the toolbar sits.
#[derive(Debug)]
pub struct ToolbarConfig {
    /// [x, y] position from the top-left of the screen.
    pub position: [i32; 2],
}

impl Default for ToolbarConfig {
    fn default() -> (c: ToolbarConfig)
        ensures
            c.position@ == seq![40i32, 40i32],
    {
        let c = ToolbarConfig { position: [40, 40] };
        assert(c.position@ =~= seq![40i32, 40i32]);
        c
    }
}

/// The settings kept in the configuration file.
#[derive(Debug)]
pub struct Config {
    pub drawing: DrawingConfig,
    pub toolbar: ToolbarConfig,
}

impl Default for Config {
    fn default() -> (c: Config)
        ensures
            c.drawing.stroke_persistence@ == "permanent"@,
            c.toolbar.position@ == seq![40i32, 40i32],
    {
        Config { drawing: DrawingConfig::default(), toolbar: ToolbarConfig::default() }
    }
}

} // verus!
