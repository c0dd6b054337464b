use vstd::prelude::*;

use crate::color::{decimal, push_decimal, Color};

verus! {

/// `ESC [ <code> ; 2 ; r ; g ; b m`: a 24-bit color escape sequence, where code
/// 38 sets the foreground and 48 the background.
pub open spec fn rgb_escape(code: Seq<char>, c: Color) -> Seq<char> {
    seq!['\x1b', '['] + code + seq![';', '2', ';'] + decimal(c.r as nat) + seq![';'] + decimal(c.g as nat)
        + seq![';'] + decimal(c.b as nat) + seq!['m']
}

fn escape(open: &str, c: &Color) -> (s: String)
    ensures
        s@ == open@ + seq![';', '2', ';'] + decimal(c.r as nat) + seq![';'] + decimal(c.g as nat) + seq![';']
            + decimal(c.b as nat) + seq!['m'],
{
    let mut s = String::new();
    s.append(open);
    let two = ";2;";
    let semi = ";";
    let end = "m";
    proof {
        reveal_strlit(";2;");
        reveal_strlit(";");
        reveal_strlit("m");
    }
    s.append(two);
    push_decimal(&mut s, c.r);
    s.append(semi);
    push_decimal(&mut s, c.g);
    s.append(semi);
    push_decimal(&mut s, c.b);
    s.append(end);
    assert(s@ =~= open@ + seq![';', '2', ';'] + decimal(c.r as nat) + seq![';'] + decimal(c.g as nat) + seq![';']
        + decimal(c.b as nat) + seq!['m']);
    s
}

/// Escape sequence that sets the 24-bit foreground color.
pub fn fg(c: &Color) -> (s: String)
    ensures
        s@ == rgb_escape(seq!['3', '8'], *c),
{
    let open = "\x1b[38";
    proof {
        reveal_strlit("\x1b[38");
    }
    let s = escape(open, c);
    assert(s@ =~= rgb_escape(seq!['3', '8'], *c));
    s
}

/// Escape sequence that sets the 24-bit background color.
pub fn bg_esc(c: &Color) -> (s: String)
    ensures
        s@ == rgb_escape(seq!['4', '8'], *c),
{
    let open = "\x1b[48";
    proof {
        reveal_strlit("\x1b[48");
    }
    let s = escape(open, c);
    assert(s@ =~= rgb_escape(seq!['4', '8'], *c));
    s
}

} // verus!
