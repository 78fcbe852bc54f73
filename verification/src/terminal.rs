use vstd::prelude::*;

use crate::buffer::ChangedCell;
use crate::cell::CellKind;
use crate::geometry::Position;
use crate::style::{Color, Style};

verus! {

/// A text attribute a terminal can switch on.
#[derive(Clone, Copy, Debug, PartialEq, Eq, Structural)]
pub enum TextAttribute {
    Bold,
    Dim,
    Italic,
    Underlined,
    CrossedOut,
    Reverse,
}

/// One terminal output command; the application writes them in order and flushes.
#[derive(Clone, Copy, Debug, PartialEq, Eq, Structural)]
pub enum TerminalCommand {
    ClearAll,
    MoveTo { x: u16, y: u16 },
    ResetAttributes,
    SetForeground(Color),
    SetBackground(Color),
    SetAttribute(TextAttribute),
    Print(char),
    ShowCursor,
    HideCursor,
}

/// `command` when `on`, else nothing.
pub open spec fn optional_command(on: bool, command: TerminalCommand) -> Seq<TerminalCommand> {
    if on {
        seq![command]
    } else {
        Seq::empty()
    }
}

/// `cmds` with `command` appended when `on`.
pub open spec fn push_if(cmds: Seq<TerminalCommand>, on: bool, command: TerminalCommand) -> Seq<
    TerminalCommand,
> {
    if on {
        cmds.push(command)
    } else {
        cmds
    }
}

/// `cmds` followed by the commands that switch the terminal to `style`: a reset, the colors
/// that are set, then each enabled attribute in a fixed order.
pub open spec fn with_style(cmds: Seq<TerminalCommand>, style: Style) -> Seq<TerminalCommand> {
    let a = style.attributes;
    let c0 = cmds.push(TerminalCommand::ResetAttributes);
    let c1 = match style.fg {
        Some(c) => c0.push(TerminalCommand::SetForeground(c)),
        None => c0,
    };
    let c2 = match style.bg {
        Some(c) => c1.push(TerminalCommand::SetBackground(c)),
        None => c1,
    };
    let c3 = push_if(c2, a.bold, TerminalCommand::SetAttribute(TextAttribute::Bold));
    let c4 = push_if(c3, a.dim, TerminalCommand::SetAttribute(TextAttribute::Dim));
    let c5 = push_if(c4, a.italic, TerminalCommand::SetAttribute(TextAttribute::Italic));
    let c6 = push_if(c5, a.underline, TerminalCommand::SetAttribute(TextAttribute::Underlined));
    let c7 = push_if(
        c6,
        a.strikethrough,
        TerminalCommand::SetAttribute(TextAttribute::CrossedOut),
    );
    push_if(c7, a.reverse, TerminalCommand::SetAttribute(TextAttribute::Reverse))
}

/// Encoding state: commands so far, the style in effect, and where the terminal cursor will be.
pub type EncodeState = (Seq<TerminalCommand>, Option<Style>, Option<(u16, u16)>);

/// The state after encoding one changed cell: continuation cells are skipped; a move is emitted
/// unless the cursor is already there, a style switch unless the style is in effect, then the
/// character, after which the cursor sits one column right (two for a wide glyph).
pub open spec fn encode_step(state: EncodeState, change: ChangedCell) -> EncodeState {
    let (cmds, active, next) = state;
    let cell = change.current;
    if cell.kind == CellKind::WideContinuation {
        state
    } else {
        let moved = if next == Some((change.x, change.y)) {
            cmds
        } else {
            cmds.push(TerminalCommand::MoveTo { x: change.x, y: change.y })
        };
        let styled = if active == Some(cell.style) {
            moved
        } else {
            with_style(moved, cell.style)
        };
        let width: int = if cell.kind == CellKind::Wide {
            2
        } else {
            1
        };
        let next2 = if change.x + width <= u16::MAX {
            Some(((change.x + width) as u16, change.y))
        } else {
            None
        };
        (styled.push(TerminalCommand::Print(cell.character)), Some(cell.style), next2)
    }
}

/// The state after encoding every changed cell in order.
pub open spec fn encode_scan(changes: Seq<ChangedCell>) -> EncodeState
    decreases changes.len(),
{
    if changes.len() == 0 {
        (Seq::empty(), None, None)
    } else {
        encode_step(encode_scan(changes.drop_last()), changes.last())
    }
}

/// The commands that draw `changes`: a full clear first when asked, then each cell, then an
/// attribute reset if any style was set.
pub open spec fn encoded_changes(changes: Seq<ChangedCell>, clear_screen: bool) -> Seq<
    TerminalCommand,
> {
    let (cmds, active, _) = encode_scan(changes);
    push_if(
        optional_command(clear_screen, TerminalCommand::ClearAll) + cmds,
        active is Some,
        TerminalCommand::ResetAttributes,
    )
}

fn push_style_commands(out: &mut Vec<TerminalCommand>, style: Style)
    ensures
        final(out)@ == with_style(old(out)@, style),
{
    out.push(TerminalCommand::ResetAttributes);
    match style.fg {
        Some(c) => out.push(TerminalCommand::SetForeground(c)),
        None => {},
    }
    match style.bg {
        Some(c) => out.push(TerminalCommand::SetBackground(c)),
        None => {},
    }
    let a = style.attributes;
    if a.bold {
        out.push(TerminalCommand::SetAttribute(TextAttribute::Bold));
    }
    if a.dim {
        out.push(TerminalCommand::SetAttribute(TextAttribute::Dim));
    }
    if a.italic {
        out.push(TerminalCommand::SetAttribute(TextAttribute::Italic));
    }
    if a.underline {
        out.push(TerminalCommand::SetAttribute(TextAttribute::Underlined));
    }
    if a.strikethrough {
        out.push(TerminalCommand::SetAttribute(TextAttribute::CrossedOut));
    }
    if a.reverse {
        out.push(TerminalCommand::SetAttribute(TextAttribute::Reverse));
    }
}

/// The terminal commands that draw `changed` (after clearing the screen when `clear_screen`).
pub fn encode_changes(changed: &[ChangedCell], clear_screen: bool) -> (r: Vec<TerminalCommand>)
    ensures
        r@ == encoded_changes(changed@, clear_screen),
{
    let mut out: Vec<TerminalCommand> = Vec::new();
    let mut active: Option<Style> = None;
    let mut next: Option<(u16, u16)> = None;
    let mut i: usize = 0;
    while i < changed.len()
        invariant
            i <= changed@.len(),
            (out@, active, next) == encode_scan(changed@.take(i as int)),
        decreases changed@.len() - i,
    {
        proof {
            assert(changed@.take(i + 1).drop_last() == changed@.take(i as int));
            assert(changed@.take(i + 1).last() == changed@[i as int]);
        }
        let change = changed[i];
        if change.current.kind != CellKind::WideContinuation {
            if next != Some((change.x, change.y)) {
                out.push(TerminalCommand::MoveTo { x: change.x, y: change.y });
            }
            if active != Some(change.current.style) {
                push_style_commands(&mut out, change.current.style);
                active = Some(change.current.style);
            }
            out.push(TerminalCommand::Print(change.current.character));
            let width: u16 = if change.current.kind == CellKind::Wide {
                2
            } else {
                1
            };
            next = match change.x.checked_add(width) {
                Some(nx) => Some((nx, change.y)),
                None => None,
            };
        }
        i = i + 1;
    }
    proof {
        assert(changed@.take(changed@.len() as int) == changed@);
    }
    let mut result: Vec<TerminalCommand> = Vec::new();
    if clear_screen {
        result.push(TerminalCommand::ClearAll);
    }
    let ghost prefix = result@;
    let mut k: usize = 0;
    while k < out.len()
        invariant
            k <= out@.len(),
            prefix == optional_command(clear_screen, TerminalCommand::ClearAll),
            result@ == prefix + out@.take(k as int),
        decreases out@.len() - k,
    {
        proof {
            assert(out@.take(k + 1) == out@.take(k as int).push(out@[k as int]));
            assert(prefix + out@.take(k + 1) == (prefix + out@.take(k as int)).push(
                out@[k as int],
            ));
        }
        result.push(out[k]);
        k = k + 1;
    }
    proof {
        assert(out@.take(out@.len() as int) == out@);
    }
    if active.is_some() {
        result.push(TerminalCommand::ResetAttributes);
    }
    result
}

/// The commands that place the terminal cursor: a move and show, or hide without a position.
pub fn cursor_commands(position: Option<Position>) -> (r: Vec<TerminalCommand>)
    ensures
        r@ == match position {
            Some(p) => seq![TerminalCommand::MoveTo { x: p.x, y: p.y }, TerminalCommand::ShowCursor],
            None => seq![TerminalCommand::HideCursor],
        },
{
    let mut out: Vec<TerminalCommand> = Vec::new();
    match position {
        Some(p) => {
            out.push(TerminalCommand::MoveTo { x: p.x, y: p.y });
            out.push(TerminalCommand::ShowCursor);
        },
        None => {
            out.push(TerminalCommand::HideCursor);
        },
    }
    proof {
        assert(out@ =~= match position {
            Some(p) => seq![TerminalCommand::MoveTo { x: p.x, y: p.y }, TerminalCommand::ShowCursor],
            None => seq![TerminalCommand::HideCursor],
        });
    }
    out
}


/// The characters printed by a command list, in order.
pub open spec fn printed(cmds: Seq<TerminalCommand>) -> Seq<char>
    decreases cmds.len(),
{
    if cmds.len() == 0 {
        Seq::empty()
    } else {
        let before = printed(cmds.drop_last());
        match cmds.last() {
            TerminalCommand::Print(c) => before.push(c),
            _ => before,
        }
    }
}

/// The characters of the changed cells that are not wide-glyph continuations, in order.
pub open spec fn drawn_chars(changes: Seq<ChangedCell>) -> Seq<char>
    decreases changes.len(),
{
    if changes.len() == 0 {
        Seq::empty()
    } else {
        let before = drawn_chars(changes.drop_last());
        if changes.last().current.kind == CellKind::WideContinuation {
            before
        } else {
            before.push(changes.last().current.character)
        }
    }
}

proof fn lemma_printed_push(cmds: Seq<TerminalCommand>, c: TerminalCommand)
    ensures
        printed(cmds.push(c)) == match c {
            TerminalCommand::Print(ch) => printed(cmds).push(ch),
            _ => printed(cmds),
        },
{
    assert(cmds.push(c).drop_last() == cmds);
}

proof fn lemma_printed_push_if(cmds: Seq<TerminalCommand>, on: bool, c: TerminalCommand)
    requires
        !(c is Print),
    ensures
        printed(push_if(cmds, on, c)) == printed(cmds),
{
    if on {
        lemma_printed_push(cmds, c);
    }
}

proof fn lemma_style_prints_nothing(cmds: Seq<TerminalCommand>, style: Style)
    ensures
        printed(with_style(cmds, style)) == printed(cmds),
{
    let a = style.attributes;
    let c0 = cmds.push(TerminalCommand::ResetAttributes);
    lemma_printed_push(cmds, TerminalCommand::ResetAttributes);
    let c1 = match style.fg {
        Some(c) => c0.push(TerminalCommand::SetForeground(c)),
        None => c0,
    };
    match style.fg {
        Some(c) => lemma_printed_push(c0, TerminalCommand::SetForeground(c)),
        None => {},
    }
    let c2 = match style.bg {
        Some(c) => c1.push(TerminalCommand::SetBackground(c)),
        None => c1,
    };
    match style.bg {
        Some(c) => lemma_printed_push(c1, TerminalCommand::SetBackground(c)),
        None => {},
    }
    let c3 = push_if(c2, a.bold, TerminalCommand::SetAttribute(TextAttribute::Bold));
    lemma_printed_push_if(c2, a.bold, TerminalCommand::SetAttribute(TextAttribute::Bold));
    let c4 = push_if(c3, a.dim, TerminalCommand::SetAttribute(TextAttribute::Dim));
    lemma_printed_push_if(c3, a.dim, TerminalCommand::SetAttribute(TextAttribute::Dim));
    let c5 = push_if(c4, a.italic, TerminalCommand::SetAttribute(TextAttribute::Italic));
    lemma_printed_push_if(c4, a.italic, TerminalCommand::SetAttribute(TextAttribute::Italic));
    let c6 = push_if(c5, a.underline, TerminalCommand::SetAttribute(TextAttribute::Underlined));
    lemma_printed_push_if(
        c5,
        a.underline,
        TerminalCommand::SetAttribute(TextAttribute::Underlined),
    );
    let c7 = push_if(
        c6,
        a.strikethrough,
        TerminalCommand::SetAttribute(TextAttribute::CrossedOut),
    );
    lemma_printed_push_if(
        c6,
        a.strikethrough,
        TerminalCommand::SetAttribute(TextAttribute::CrossedOut),
    );
    lemma_printed_push_if(c7, a.reverse, TerminalCommand::SetAttribute(TextAttribute::Reverse));
}

proof fn lemma_scan_prints(changes: Seq<ChangedCell>)
    ensures
        printed(encode_scan(changes).0) == drawn_chars(changes),
    decreases changes.len(),
{
    if changes.len() > 0 {
        lemma_scan_prints(changes.drop_last());
        let (cmds, active, next) = encode_scan(changes.drop_last());
        let change = changes.last();
        let cell = change.current;
        if cell.kind != CellKind::WideContinuation {
            let moved = if next == Some((change.x, change.y)) {
                cmds
            } else {
                cmds.push(TerminalCommand::MoveTo { x: change.x, y: change.y })
            };
            if next != Some((change.x, change.y)) {
                lemma_printed_push(cmds, TerminalCommand::MoveTo { x: change.x, y: change.y });
            }
            let styled = if active == Some(cell.style) {
                moved
            } else {
                with_style(moved, cell.style)
            };
            if active != Some(cell.style) {
                lemma_style_prints_nothing(moved, cell.style);
            }
            lemma_printed_push(styled, TerminalCommand::Print(cell.character));
        }
    }
}

proof fn lemma_printed_prefix_clear(cmds: Seq<TerminalCommand>)
    ensures
        printed(seq![TerminalCommand::ClearAll] + cmds) == printed(cmds),
    decreases cmds.len(),
{
    let pre = seq![TerminalCommand::ClearAll];
    if cmds.len() > 0 {
        lemma_printed_prefix_clear(cmds.drop_last());
        assert(pre + cmds == (pre + cmds.drop_last()).push(cmds.last()));
        assert(cmds == cmds.drop_last().push(cmds.last()));
        lemma_printed_push(pre + cmds.drop_last(), cmds.last());
        lemma_printed_push(cmds.drop_last(), cmds.last());
    } else {
        assert(pre + cmds == Seq::<TerminalCommand>::empty().push(TerminalCommand::ClearAll));
        lemma_printed_push(Seq::<TerminalCommand>::empty(), TerminalCommand::ClearAll);
        assert(printed(Seq::<TerminalCommand>::empty()) == Seq::<char>::empty());
    }
}

/// Encoding prints exactly the characters of the changed cells, in order, skipping only the
/// continuation halves of wide glyphs: nothing is drawn twice and nothing is lost.
pub proof fn lemma_encoding_prints_changed_cells(changes: Seq<ChangedCell>, clear_screen: bool)
    ensures
        printed(encoded_changes(changes, clear_screen)) == drawn_chars(changes),
{
    let (cmds, active, _) = encode_scan(changes);
    lemma_scan_prints(changes);
    let body = optional_command(clear_screen, TerminalCommand::ClearAll) + cmds;
    if clear_screen {
        lemma_printed_prefix_clear(cmds);
    } else {
        assert(body =~= cmds);
    }
    lemma_printed_push_if(body, active is Some, TerminalCommand::ResetAttributes);
}

} // verus!
