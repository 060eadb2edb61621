//! The settings file that keeps the access token between runs: one
//! `NAME=value` to a line.

use crate::model::views;
use crate::text::{
    chars_of, find_first, first_index, has_prefix, push_all, push_str, slice_of, starts_with,
    string_of,
};
use vstd::prelude::*;

verus! {

/// `line` without one trailing carriage return.
pub open spec fn without_cr(line: Seq<char>) -> Seq<char> {
    if line.len() > 0 && line.last() == '\r' {
        line.drop_last()
    } else {
        line
    }
}

/// The lines of `text`. A line ends at a line feed, or at a carriage return
/// followed by a line feed; the last line needs no ending, and what follows
/// the last ending is a line only if it is not empty.
pub open spec fn lines_of(text: Seq<char>) -> Seq<Seq<char>>
    decreases text.len(),
{
    if text.len() == 0 {
        Seq::empty()
    } else {
        match first_index(text, '\n') {
            Some(i) => if 0 <= i < text.len() {
                seq![without_cr(text.take(i))] + lines_of(text.skip(i + 1))
            } else {
                seq![text]
            },
            None => seq![text],
        }
    }
}

/// The line that sets the token.
pub open spec fn token_line(token: Seq<char>) -> Seq<char> {
    "DISCORD_TOKEN="@ + token + "\n"@
}

/// Whether `line` sets the token.
pub open spec fn sets_token(line: Seq<char>) -> bool {
    has_prefix(line, "DISCORD_TOKEN="@)
}

/// The lines from position `at` on, each ended by a line feed, with every
/// line that sets the token replaced by one that sets it to `token`.
pub open spec fn rewritten_from(lines: Seq<Seq<char>>, at: int, token: Seq<char>) -> Seq<char>
    decreases lines.len() - at,
{
    if at < 0 || at >= lines.len() {
        Seq::empty()
    } else if sets_token(lines[at]) {
        token_line(token) + rewritten_from(lines, at + 1, token)
    } else {
        lines[at] + "\n"@ + rewritten_from(lines, at + 1, token)
    }
}

/// Whether some line sets the token.
pub open spec fn any_sets_token(lines: Seq<Seq<char>>) -> bool {
    exists|i: int| 0 <= i < lines.len() && sets_token(#[trigger] lines[i])
}

/// The settings file after the token was saved: every line that set the
/// token sets it to `token`; if none did, such a line is added at the end. A
/// file that did not exist holds that line alone.
pub open spec fn saved_settings(existing: Option<Seq<char>>, token: Seq<char>) -> Seq<char> {
    match existing {
        None => token_line(token),
        Some(content) => {
            let lines = lines_of(content);
            if any_sets_token(lines) {
                rewritten_from(lines, 0, token)
            } else {
                rewritten_from(lines, 0, token) + token_line(token)
            }
        },
    }
}

/// Splits a text into its lines.
pub fn split_lines(text: &Vec<char>) -> (lines: Vec<Vec<char>>)
    ensures
        views(lines@) == lines_of(text@),
{
    let mut lines: Vec<Vec<char>> = Vec::new();
    let mut rest: Vec<char> = slice_of(text, 0, text.len());
    assert(rest@ == text@);
    let ghost whole = lines_of(text@);
    assert(views(lines@) + lines_of(rest@) == whole);
    while rest.len() > 0
        invariant
            views(lines@) + lines_of(rest@) == whole,
        decreases rest.len(),
    {
        let ghost before = views(lines@);
        match find_first(&rest, '\n') {
            Some(i) => {
                let end: usize = if i > 0 && rest[i - 1] == '\r' {
                    i - 1
                } else {
                    i
                };
                let line = slice_of(&rest, 0, end);
                assert(line@ == without_cr(rest@.take(i as int))) by {
                    assert(rest@.take(i as int).len() == i);
                    if i > 0 {
                        assert(rest@.take(i as int).last() == rest@[i - 1]);
                        assert(rest@.take(i as int).drop_last() == rest@.take(i - 1));
                    }
                }
                let tail = slice_of(&rest, i + 1, rest.len());
                assert(tail@ == rest@.skip(i + 1));
                lines.push(line);
                assert(views(lines@) == before.push(line@));
                assert(before.push(line@) + lines_of(tail@) == before + (seq![line@] + lines_of(
                    tail@,
                )));
                rest = tail;
            },
            None => {
                let line = slice_of(&rest, 0, rest.len());
                assert(line@ == rest@);
                lines.push(line);
                assert(views(lines@) == before.push(rest@));
                assert(before.push(rest@) + Seq::<Seq<char>>::empty() == before + seq![rest@]);
                rest = Vec::new();
            },
        }
    }
    assert(views(lines@) + Seq::<Seq<char>>::empty() == views(lines@,
    ));
    lines
}

/// Writes the settings file that saves `token`, given what the file holds
/// now, if it exists.
pub fn save_token(existing: Option<&str>, token: &str) -> (r: String)
    ensures
        r@ == saved_settings(
            match existing {
                Some(content) => Some(content@),
                None => None,
            },
            token@,
        ),
{
    let mut line: Vec<char> = Vec::new();
    push_str(&mut line, "DISCORD_TOKEN=");
    push_str(&mut line, token);
    push_str(&mut line, "\n");
    assert(line@ == token_line(token@)) by {
        assert(Seq::<char>::empty() + "DISCORD_TOKEN="@ == "DISCORD_TOKEN="@);
    }
    let content = match existing {
        Some(content) => content,
        None => {
            return string_of(&line);
        },
    };
    let lines = split_lines(&chars_of(content));
    let ghost all = views(lines@);
    let prefix = chars_of("DISCORD_TOKEN=");
    let mut out: Vec<char> = Vec::new();
    let mut replaced = false;
    let mut at: usize = 0;
    assert(out@ + rewritten_from(all, 0, token@) == rewritten_from(all, 0, token@));
    while at < lines.len()
        invariant
            at <= lines.len(),
            all == views(lines@),
            line@ == token_line(token@),
            prefix@ == "DISCORD_TOKEN="@,
            out@ + rewritten_from(all, at as int, token@) == rewritten_from(all, 0, token@),
            replaced == exists|i: int| 0 <= i < at && sets_token(#[trigger] all[i]),
        decreases lines.len() - at,
    {
        let ghost before = out@;
        let ghost rest = rewritten_from(all, at + 1, token@);
        assert(all[at as int] == lines@[at as int]@);
        if starts_with(&lines[at], &prefix) {
            push_all(&mut out, &line);
            assert(before + line@ + rest == before + (line@ + rest));
            replaced = true;
        } else {
            push_all(&mut out, &lines[at]);
            push_str(&mut out, "\n");
            assert(before + all[at as int] + "\n"@ + rest == before + (all[at as int] + "\n"@
                + rest));
        }
        at += 1;
    }
    assert(out@ + Seq::<char>::empty() == out@);
    assert(replaced == any_sets_token(all));
    if !replaced {
        push_all(&mut out, &line);
    }
    string_of(&out)
}

} // verus!
