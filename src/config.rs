//! What a caller asks of one rendering.
use vstd::prelude::*;

verus! {

/// Size of the terminal viewport in character cells.
#[derive(Clone, Copy, Debug, PartialEq, Eq, Structural)]
pub struct TerminalSize {
    pub columns: u16,
    pub rows: u16,
}

/// The viewport assumed when the terminal cannot be asked for its size.
pub const DEFAULT_COLUMNS: u16 = 80;

/// See [`DEFAULT_COLUMNS`].
pub const DEFAULT_ROWS: u16 = 24;

impl TerminalSize {
    /// The viewport assumed when the terminal cannot be asked for its size.
    pub fn fallback() -> (r: TerminalSize)
        ensures
            r.columns == DEFAULT_COLUMNS,
            r.rows == DEFAULT_ROWS,
    {
        TerminalSize { columns: DEFAULT_COLUMNS, rows: DEFAULT_ROWS }
    }
}

/// Options of one rendering.
#[derive(Clone, Copy, Debug, PartialEq, Eq)]
pub struct Config {
    /// Target width in cells.
    pub width: Option<u32>,
    /// Target height in cells; each cell holds two rows of pixels.
    pub height: Option<u32>,
    /// Whether the image is fitted to the target before it is drawn.
    pub resize: bool,
    /// Whether pixels that are not fully opaque let the terminal's own
    /// background show, rather than a checkerboard.
    pub transparent: bool,
}

impl Default for Config {
    fn default() -> (r: Config)
        ensures
            r.width is None,
            r.height is None,
            r.resize,
            !r.transparent,
    {
        Config { width: None, height: None, resize: true, transparent: false }
    }
}

} // verus!
