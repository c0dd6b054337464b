use vstd::prelude::*;

use crate::assign::AnsiPalette;
use crate::color::{decimal, hex_text, push_decimal, Color};

verus! {

/// Supported output targets.
#[derive(Clone, Copy, Debug, PartialEq, Eq, Structural)]
pub enum Target {
    Ghostty,
    Zellij,
    Neovim,
}

/// Ghostty terminal theme backend.
#[derive(Clone, Copy, Debug, PartialEq, Eq, Structural)]
pub struct GhosttyBackend;

/// Zellij terminal multiplexer theme backend (KDL format).
#[derive(Clone, Copy, Debug, PartialEq, Eq, Structural)]
pub struct ZellijBackend;

/// Neovim colorscheme backend (Lua format).
#[derive(Clone, Copy, Debug, PartialEq, Eq, Structural)]
pub struct NeovimBackend;

/// A theme output backend: the closed set of formats a palette can be written in.
#[derive(Clone, Copy, Debug, PartialEq, Eq, Structural)]
pub enum ThemeBackend {
    Ghostty(GhosttyBackend),
    Zellij(ZellijBackend),
    Neovim(NeovimBackend),
}

/// `key = #rrggbb` and a newline.
pub open spec fn setting_line(key: Seq<char>, c: Color) -> Seq<char> {
    key + seq![' ', '=', ' '] + hex_text(c) + seq!['\n']
}

/// `palette = i=#rrggbb` and a newline.
pub open spec fn palette_line(i: nat, c: Color) -> Seq<char> {
    seq!['p', 'a', 'l', 'e', 't', 't', 'e', ' ', '=', ' '] + decimal(i) + seq!['='] + hex_text(c) + seq!['\n']
}

/// The palette lines of the first `n` slots.
pub open spec fn palette_lines(slots: Seq<Color>, n: nat) -> Seq<char>
    decreases n,
{
    if n == 0 {
        Seq::empty()
    } else {
        palette_lines(slots, (n - 1) as nat) + palette_line((n - 1) as nat, slots[n - 1])
    }
}

/// The six special-color lines of a Ghostty theme.
pub open spec fn ghostty_header(p: AnsiPalette) -> Seq<char> {
    setting_line("background"@, p.background) + setting_line("foreground"@, p.foreground) + setting_line(
        "cursor-color"@,
        p.cursor_color,
    ) + setting_line("cursor-text"@, p.cursor_text) + setting_line("selection-background"@, p.selection_bg)
        + setting_line("selection-foreground"@, p.selection_fg)
}

/// A Ghostty theme file: the special colors, then one line per ANSI slot.
pub open spec fn ghostty_text(p: AnsiPalette) -> Seq<char> {
    ghostty_header(p) + palette_lines(p.slots@, 16)
}

fn push_setting(out: &mut String, key: &str, c: &Color)
    ensures
        final(out)@ == old(out)@ + setting_line(key@, *c),
{
    let eq = " = ";
    let nl = "\n";
    proof {
        reveal_strlit(" = ");
        reveal_strlit("\n");
    }
    out.append(key);
    out.append(eq);
    let hex = c.to_hex();
    out.append(hex.as_str());
    out.append(nl);
    assert(final(out)@ =~= old(out)@ + setting_line(key@, *c));
}

impl GhosttyBackend {
    pub fn name(&self) -> (r: &'static str)
        ensures
            r@ == "Ghostty"@,
    {
        "Ghostty"
    }

    /// The palette in Ghostty's theme format. The theme name is not part of it.
    pub fn serialize(&self, palette: &AnsiPalette, _theme_name: &str) -> (s: String)
        ensures
            s@ == ghostty_text(*palette),
    {
        let p = palette;
        let mut out = String::new();
        push_setting(&mut out, "background", &p.background);
        push_setting(&mut out, "foreground", &p.foreground);
        push_setting(&mut out, "cursor-color", &p.cursor_color);
        push_setting(&mut out, "cursor-text", &p.cursor_text);
        push_setting(&mut out, "selection-background", &p.selection_bg);
        push_setting(&mut out, "selection-foreground", &p.selection_fg);
        assert(out@ =~= ghostty_header(*p) + palette_lines(p.slots@, 0));
        let head = "palette = ";
        let eq = "=";
        let nl = "\n";
        proof {
            reveal_strlit("palette = ");
            reveal_strlit("=");
            reveal_strlit("\n");
        }
        let mut i: usize = 0;
        while i < 16
            invariant
                i <= 16,
                head@ == seq!['p', 'a', 'l', 'e', 't', 't', 'e', ' ', '=', ' '],
                eq@ == seq!['='],
                nl@ == seq!['\n'],
                out@ == ghostty_header(*p) + palette_lines(p.slots@, i as nat),
            decreases 16 - i,
        {
            let ghost before = out@;
            out.append(head);
            push_decimal(&mut out, i as u8);
            out.append(eq);
            let hex = p.slots[i].to_hex();
            out.append(hex.as_str());
            out.append(nl);
            assert(out@ =~= before + palette_line(i as nat, p.slots@[i as int]));
            assert(palette_lines(p.slots@, (i + 1) as nat) == palette_lines(p.slots@, i as nat) + palette_line(
                i as nat,
                p.slots@[i as int],
            ));
            i += 1;
        }
        out
    }
}

impl ZellijBackend {
    pub fn name(&self) -> (r: &'static str)
        ensures
            r@ == "Zellij"@,
    {
        "Zellij"
    }
}

impl NeovimBackend {
    pub fn name(&self) -> (r: &'static str)
        ensures
            r@ == "Neovim"@,
    {
        "Neovim"
    }
}

impl ThemeBackend {
    /// Human-readable name shown in help texts and the interactive viewer.
    pub fn name(&self) -> (r: &'static str)
        ensures
            r@ == match self {
                ThemeBackend::Ghostty(_) => "Ghostty"@,
                ThemeBackend::Zellij(_) => "Zellij"@,
                ThemeBackend::Neovim(_) => "Neovim"@,
            },
    {
        match self {
            ThemeBackend::Ghostty(b) => b.name(),
            ThemeBackend::Zellij(b) => b.name(),
            ThemeBackend::Neovim(b) => b.name(),
        }
    }

    /// File extension of the theme file (empty for none).
    pub fn extension(&self) -> (r: &'static str)
        ensures
            r@ == match self {
                ThemeBackend::Ghostty(_) => ""@,
                ThemeBackend::Zellij(_) => ".kdl"@,
                ThemeBackend::Neovim(_) => ".lua"@,
            },
    {
        match self {
            ThemeBackend::Ghostty(_) => "",
            ThemeBackend::Zellij(_) => ".kdl",
            ThemeBackend::Neovim(_) => ".lua",
        }
    }

    /// The palette in the backend's theme format, or `None` for a format that
    /// has no serializer yet (Zellij and Neovim).
    pub fn serialize(&self, palette: &AnsiPalette, theme_name: &str) -> (r: Option<String>)
        ensures
            match self {
                ThemeBackend::Ghostty(_) => r matches Some(s) && s@ == ghostty_text(*palette),
                _ => r is None,
            },
    {
        match self {
            ThemeBackend::Ghostty(b) => Some(b.serialize(palette, theme_name)),
            _ => None,
        }
    }
}

/// The backend for a target.
pub fn get_backend(target: Target) -> (b: ThemeBackend)
    ensures
        b == match target {
            Target::Ghostty => ThemeBackend::Ghostty(GhosttyBackend),
            Target::Zellij => ThemeBackend::Zellij(ZellijBackend),
            Target::Neovim => ThemeBackend::Neovim(NeovimBackend),
        },
{
    match target {
        Target::Ghostty => ThemeBackend::Ghostty(GhosttyBackend),
        Target::Zellij => ThemeBackend::Zellij(ZellijBackend),
        Target::Neovim => ThemeBackend::Neovim(NeovimBackend),
    }
}

} // verus!
