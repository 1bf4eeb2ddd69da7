//! Bar styles: ordered glyph sequences from "empty" to "full".
//!
//! - `ASCII`: pure ASCII bar with `"0123456789#"`
//! - `Block`: unicode block elements, one eighth of a cell per level
//! - `Balloon`: an inflating balloon, `".oO@*"`
//! - `Pacman`: two levels, `"C-"`
//! - `Custom`: any glyph sequence supplied by the caller

use vstd::prelude::*;
use vstd::string::StringExecFns;
use crate::text::chars_of;

verus! {

/// Why a configuration request was turned down.
#[derive(Debug, PartialEq, Eq)]
pub enum ConfigError {
    /// The name does not refer to any predefined style.
    UnknownStyle,
    /// The style holds no glyph at all, so nothing could be drawn with it.
    EmptyStyle,
    /// The smoothing factor lies outside `(0, 1]`.
    SmoothingOutOfRange,
}

/// Selects the glyph sequence a bar is drawn with.
#[derive(Debug, PartialEq, Eq)]
pub enum Style {
    ASCII,
    Block,
    Balloon,
    Pacman,
    Custom(String),
}

pub open spec fn ascii_glyphs() -> Seq<char> {
    seq!['0', '1', '2', '3', '4', '5', '6', '7', '8', '9', '#']
}

pub open spec fn block_glyphs() -> Seq<char> {
    seq![
        ' ',
        '\u{258F}',
        '\u{258E}',
        '\u{258D}',
        '\u{258C}',
        '\u{258B}',
        '\u{258A}',
        '\u{2589}',
        '\u{2588}',
    ]
}

pub open spec fn balloon_glyphs() -> Seq<char> {
    seq!['.', 'o', 'O', '@', '*']
}

pub open spec fn pacman_glyphs() -> Seq<char> {
    seq!['C', '-']
}

/// The predefined style that `name` refers to, if any.
pub open spec fn style_named(name: Seq<char>) -> Option<Style> {
    if name == seq!['A', 'S', 'C', 'I', 'I'] {
        Some(Style::ASCII)
    } else if name == seq!['B', 'l', 'o', 'c', 'k'] {
        Some(Style::Block)
    } else if name == seq!['B', 'a', 'l', 'l', 'o', 'o', 'n'] {
        Some(Style::Balloon)
    } else if name == seq!['P', 'a', 'c', 'm', 'a', 'n'] {
        Some(Style::Pacman)
    } else {
        None
    }
}

impl View for Style {
    type V = Seq<char>;

    /// A style is its glyph sequence, first glyph "empty", last glyph "full".
    open spec fn view(&self) -> Seq<char> {
        match self {
            Style::ASCII => ascii_glyphs(),
            Style::Block => block_glyphs(),
            Style::Balloon => balloon_glyphs(),
            Style::Pacman => pacman_glyphs(),
            Style::Custom(glyphs) => glyphs@,
        }
    }
}

impl Default for Style {
    fn default() -> (style: Self)
        ensures
            style == Style::Block,
    {
        Style::Block
    }
}

impl Clone for Style {
    fn clone(&self) -> (copy: Self)
        ensures
            copy == *self,
    {
        match self {
            Style::ASCII => Style::ASCII,
            Style::Block => Style::Block,
            Style::Balloon => Style::Balloon,
            Style::Pacman => Style::Pacman,
            Style::Custom(glyphs) => Style::Custom(glyphs.clone()),
        }
    }
}

impl Style {
    /// The glyph sequence as a string.
    pub fn to_string(&self) -> (text: String)
        ensures
            text@ == self@,
    {
        match self {
            Style::ASCII => {
                proof {
                    reveal_strlit("0123456789#");
                }
                assert("0123456789#"@ == ascii_glyphs());
                String::from_str("0123456789#")
            },
            Style::Block => {
                proof {
                    reveal_strlit(" \u{258F}\u{258E}\u{258D}\u{258C}\u{258B}\u{258A}\u{2589}\u{2588}");
                }
                assert(" \u{258F}\u{258E}\u{258D}\u{258C}\u{258B}\u{258A}\u{2589}\u{2588}"@
                    == block_glyphs());
                String::from_str(" \u{258F}\u{258E}\u{258D}\u{258C}\u{258B}\u{258A}\u{2589}\u{2588}")
            },
            Style::Balloon => {
                proof {
                    reveal_strlit(".oO@*");
                }
                assert(".oO@*"@ == balloon_glyphs());
                String::from_str(".oO@*")
            },
            Style::Pacman => {
                proof {
                    reveal_strlit("C-");
                }
                assert("C-"@ == pacman_glyphs());
                String::from_str("C-")
            },
            Style::Custom(glyphs) => glyphs.clone(),
        }
    }

    /// The glyph sequence, one element per glyph.
    pub fn glyphs(&self) -> (glyphs: Vec<char>)
        ensures
            glyphs@ == self@,
    {
        let text = self.to_string();
        chars_of(text.as_str())
    }

    /// Whether the style can draw anything: it holds at least one glyph.
    pub fn is_drawable(&self) -> (ok: bool)
        ensures
            ok == (self@.len() > 0),
    {
        match self {
            Style::Custom(glyphs) => !glyphs.as_str().is_empty(),
            _ => true,
        }
    }

    /// Resolves a style reference: `"ASCII"`, `"Block"`, `"Balloon"` and
    /// `"Pacman"` name the predefined styles; any other name is refused.
    pub fn from_name(name: &str) -> (found: Result<Style, ConfigError>)
        ensures
            found == match style_named(name@) {
                Some(style) => Ok::<Style, ConfigError>(style),
                None => Err::<Style, ConfigError>(ConfigError::UnknownStyle),
            },
    {
        proof {
            reveal_strlit("ASCII");
            reveal_strlit("Block");
            reveal_strlit("Balloon");
            reveal_strlit("Pacman");
        }
        assert("ASCII"@ == seq!['A', 'S', 'C', 'I', 'I']);
        assert("Block"@ == seq!['B', 'l', 'o', 'c', 'k']);
        assert("Balloon"@ == seq!['B', 'a', 'l', 'l', 'o', 'o', 'n']);
        assert("Pacman"@ == seq!['P', 'a', 'c', 'm', 'a', 'n']);
        let name = String::from_str(name);
        if name == String::from_str("ASCII") {
            Ok(Style::ASCII)
        } else if name == String::from_str("Block") {
            Ok(Style::Block)
        } else if name == String::from_str("Balloon") {
            Ok(Style::Balloon)
        } else if name == String::from_str("Pacman") {
            Ok(Style::Pacman)
        } else {
            Err(ConfigError::UnknownStyle)
        }
    }
}

} // verus!
