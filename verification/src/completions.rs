//! Installing shell completions: the line that loads them from the shell's
//! profile, and what the profile needs added to hold it.
use crate::line_size::{split_on, split_text, texts_of};
use crate::text::{chars_of, owned, push_char, push_str, string_eq};
use vstd::prelude::*;

verus! {

/// The profile line that loads the completions of `command_name`.
pub open spec fn completion_line_text(command_name: Seq<char>) -> Seq<char> {
    ". $PSScriptRoot\\Completions\\"@ + command_name + ".ps1"@
}

/// The profile line that loads the completions of `command_name`.
pub fn completion_line(command_name: &str) -> (r: String)
    ensures
        r@ == completion_line_text(command_name@),
{
    let mut r = owned(". $PSScriptRoot\\Completions\\");
    push_str(&mut r, command_name);
    push_str(&mut r, ".ps1");
    r
}

/// Whether `text` has a line that reads `line`, the lines being split at
/// each `\n`, with a `\r` just before a `\n` taken off, and with no empty
/// line after a final `\n`.
pub open spec fn has_line(text: Seq<char>, line: Seq<char>) -> bool {
    let pieces = split_on(text, '\n');
    exists|i: int|
        0 <= i < pieces.len() && {
            ||| (#[trigger] pieces[i] == line && !(i == pieces.len() - 1 && line.len() == 0))
            ||| (i < pieces.len() - 1 && pieces[i] == line.push('\r'))
        }
}

/// Whether `text` ends with a newline.
pub open spec fn ends_with_newline(text: Seq<char>) -> bool {
    text.len() > 0 && text.last() == '\n'
}

/// What to append to a profile so that it holds `line`: nothing where a line
/// of it already reads `line`, else the line, after a newline where the
/// profile does not end with one.
pub open spec fn profile_addition_text(profile: Seq<char>, line: Seq<char>) -> Option<Seq<char>> {
    if has_line(profile, line) {
        None
    } else if ends_with_newline(profile) {
        Some(line)
    } else {
        Some(seq!['\n'] + line)
    }
}

/// What to append to the profile `profile` so that it loads `line`.
pub fn profile_addition(profile: &str, line: &str) -> (r: Option<String>)
    ensures
        match r {
            Some(t) => profile_addition_text(profile@, line@) == Some(t@),
            None => profile_addition_text(profile@, line@) is None,
        },
{
    let pieces = split_text(profile, '\n');
    let ghost views = texts_of(pieces@);
    let wanted = owned(line);
    let mut wanted_cr = owned(line);
    push_char(&mut wanted_cr, '\r');
    let n = pieces.len();
    assert(views.len() == n);
    let mut i: usize = 0;
    while i < n
        invariant
            i <= n,
            n == pieces@.len(),
            views == texts_of(pieces@),
            views == split_on(profile@, '\n'),
            wanted@ == line@,
            wanted_cr@ == line@.push('\r'),
            forall|j: int|
                0 <= j < i ==> !({
                    ||| (#[trigger] views[j] == line@ && !(j == n - 1 && line@.len() == 0))
                    ||| (j < n - 1 && views[j] == line@.push('\r'))
                }),
        decreases n - i,
    {
        assert(views[i as int] == pieces@[i as int]@);
        let last = i + 1 == n;
        let empty_line = line.unicode_len() == 0;
        if string_eq(&pieces[i], &wanted) && !(last && empty_line) {
            assert(has_line(profile@, line@)) by {
                assert(views[i as int] == line@);
            }
            return None;
        }
        if !last && string_eq(&pieces[i], &wanted_cr) {
            assert(has_line(profile@, line@)) by {
                assert(views[i as int] == line@.push('\r'));
            }
            return None;
        }
        i = i + 1;
    }
    let chars = chars_of(profile);
    let mut out = String::new();
    if !(chars.len() > 0 && chars[chars.len() - 1] == '\n') {
        push_char(&mut out, '\n');
    }
    push_str(&mut out, line);
    assert(!has_line(profile@, line@));
    Some(out)
}

} // verus!

verus! {

/// Adding text without a `\n` to the end of `s` extends its last line.
proof fn lemma_split_append(s: Seq<char>, q: Seq<char>)
    requires
        !q.contains('\n'),
    ensures
        split_on(s + q, '\n').len() == split_on(s, '\n').len(),
        split_on(s + q, '\n').last() == split_on(s, '\n').last() + q,
    decreases q.len(),
{
    crate::line_size::lemma_split_nonempty(s, '\n');
    if q.len() == 0 {
        assert(s + q =~= s);
        assert(split_on(s, '\n').last() + q =~= split_on(s, '\n').last());
    } else {
        let p = q.drop_last();
        assert(!p.contains('\n')) by {
            if p.contains('\n') {
                let j = choose|j: int| 0 <= j < p.len() && p[j] == '\n';
                assert(q[j] == '\n');
            }
        }
        assert(q.last() != '\n') by {
            assert(q[q.len() - 1] == q.last());
        }
        lemma_split_append(s, p);
        assert((s + q).drop_last() =~= s + p);
        assert((s + q).last() == q.last());
        assert(split_on(s, '\n').last() + p + seq![q.last()] =~= split_on(s, '\n').last() + q);
        assert((split_on(s, '\n').last() + p).push(q.last()) =~= split_on(s, '\n').last() + q);
    }
}

/// A second install adds nothing: once the profile has been given what
/// `profile_addition_text` asks for, it holds the line, for any line that is
/// not empty and has no `\n`.
pub proof fn lemma_second_install_adds_nothing(profile: Seq<char>, line: Seq<char>)
    requires
        line.len() > 0,
        !line.contains('\n'),
    ensures
        profile_addition_text(profile, line) matches Some(a) ==> profile_addition_text(
            profile + a,
            line,
        ) is None,
{
    if let Some(a) = profile_addition_text(profile, line) {
        let s = if ends_with_newline(profile) {
            profile
        } else {
            profile.push('\n')
        };
        assert(profile + a =~= s + line);
        assert(s.len() > 0 && s.last() == '\n');
        assert(s.drop_last() + seq!['\n'] =~= s);
        crate::line_size::lemma_split_nonempty(s.drop_last(), '\n');
        assert(split_on(s, '\n').last() =~= Seq::<char>::empty());
        lemma_split_append(s, line);
        let pieces = split_on(profile + a, '\n');
        assert(pieces.last() =~= line);
        assert(pieces[pieces.len() - 1] == line);
        assert(has_line(profile + a, line));
    }
}

} // verus!
