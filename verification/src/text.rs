//! Plain-text helpers for the durable selection store: the persisted file is
//! a newline-delimited list of group display names.

use vstd::prelude::*;

verus! {

/// The lines of `s` after `cur` has already been read as the beginning of the
/// current line: reading on, each newline ends a line, and the end of the
/// text ends the last one.
pub open spec fn spec_lines_acc(s: Seq<char>, cur: Seq<char>) -> Seq<Seq<char>>
    decreases s.len(),
{
    if s.len() == 0 {
        seq![cur]
    } else if s[0] == '\n' {
        seq![cur] + spec_lines_acc(s.skip(1), Seq::empty())
    } else {
        spec_lines_acc(s.skip(1), cur.push(s[0]))
    }
}

/// The newline-delimited lines of `s`; empty text has no lines.
pub open spec fn spec_lines(s: Seq<char>) -> Seq<Seq<char>> {
    if s.len() == 0 {
        Seq::empty()
    } else {
        spec_lines_acc(s, Seq::empty())
    }
}

/// A blank text: nothing but spaces, tabs and carriage returns.
pub open spec fn spec_is_blank(s: Seq<char>) -> bool {
    forall|i: int| 0 <= i < s.len() ==> (s[i] == ' ' || s[i] == '\t' || s[i] == '\r')
}

/// Whether `name` stands in `lines` as a non-blank line.
pub open spec fn spec_name_saved(lines: Seq<Seq<char>>, name: Seq<char>) -> bool {
    exists|j: int| 0 <= j < lines.len() && lines[j] == name && !spec_is_blank(lines[j])
}

/// Whether the string is nothing but spaces, tabs and carriage returns.
pub fn is_blank(s: &str) -> (r: bool)
    ensures
        r == spec_is_blank(s@),
{
    let len = s.unicode_len();
    let mut i: usize = 0;
    while i < len
        invariant
            i <= s@.len(),
            len == s@.len(),
            forall|t: int| 0 <= t < i ==> (s@[t] == ' ' || s@[t] == '\t' || s@[t] == '\r'),
        decreases s@.len() - i,
    {
        let c = s.get_char(i);
        if !(c == ' ' || c == '\t' || c == '\r') {
            return false;
        }
        i = i + 1;
    }
    true
}

/// Split text into its newline-delimited lines.
#[verifier::loop_isolation(false)]
pub fn split_lines(content: &str) -> (r: Vec<String>)
    ensures
        r.deep_view() == spec_lines(content@),
{
    let mut lines: Vec<String> = Vec::new();
    let len = content.unicode_len();
    if len == 0 {
        proof {
            assert(lines.deep_view() =~= spec_lines(content@));
        }
        return lines;
    }
    let ghost s = content@;
    let mut start: usize = 0;
    let mut i: usize = 0;
    proof {
        assert(s.skip(0) =~= s);
        assert(s.subrange(0, 0) =~= Seq::<char>::empty());
        assert(lines.deep_view() + spec_lines_acc(s, Seq::empty()) =~= spec_lines_acc(
            s,
            Seq::empty(),
        ));
    }
    while i < len
        invariant
            0 <= start <= i <= s.len(),
            len == s.len(),
            spec_lines(s) == lines.deep_view() + spec_lines_acc(
                s.skip(i as int),
                s.subrange(start as int, i as int),
            ),
        decreases s.len() - i,
    {
        let c = content.get_char(i);
        if c == '\n' {
            let line = content.substring_char(start, i);
            let owned = line.to_owned();
            lines.push(owned);
            proof {
                assert(s.skip(i as int)[0] == '\n');
                assert(s.skip(i as int).skip(1) =~= s.skip(i as int + 1));
                assert(lines.deep_view() =~= lines.deep_view().subrange(
                    0,
                    lines.deep_view().len() - 1,
                ).push(s.subrange(start as int, i as int)));
                assert(spec_lines(s) =~= lines.deep_view() + spec_lines_acc(
                    s.skip(i as int + 1),
                    Seq::empty(),
                ));
            }
            start = i + 1;
            proof {
                assert(s.subrange(start as int, i as int + 1) =~= Seq::<char>::empty());
            }
        } else {
            proof {
                assert(s.skip(i as int)[0] == s[i as int]);
                assert(s.skip(i as int).skip(1) =~= s.skip(i as int + 1));
                assert(s.subrange(start as int, i as int).push(s[i as int]) =~= s.subrange(
                    start as int,
                    i as int + 1,
                ));
            }
        }
        i = i + 1;
    }
    let line = content.substring_char(start, len);
    let owned = line.to_owned();
    lines.push(owned);
    proof {
        assert(s.skip(len as int).len() == 0);
        assert(lines.deep_view() =~= spec_lines(s));
    }
    lines
}

/// The names joined with single newlines between them: the persisted form of
/// a selection.
pub open spec fn spec_joined_names(names: Seq<Seq<char>>) -> Seq<char>
    decreases names.len(),
{
    if names.len() == 0 {
        Seq::empty()
    } else if names.len() == 1 {
        names[0]
    } else {
        spec_joined_names(names.drop_last()) + seq!['\n'] + names.last()
    }
}

/// Join names with single newlines between them.
#[verifier::loop_isolation(false)]
pub fn join_names(names: &Vec<String>) -> (r: String)
    ensures
        r@ == spec_joined_names(names.deep_view()),
{
    proof {
        reveal_strlit("\n");
    }
    let ghost namesv = names.deep_view();
    let mut out = String::new();
    let mut i: usize = 0;
    while i < names.len()
        invariant
            i <= namesv.len(),
            out@ == spec_joined_names(namesv.take(i as int)),
        decreases namesv.len() - i,
    {
        if i > 0 {
            out.append("\n");
        }
        out.append(names[i].as_str());
        proof {
            assert("\n"@ =~= seq!['\n']);
            assert(namesv.take(i as int + 1).drop_last() =~= namesv.take(i as int));
            if i == 0 {
                assert(out@ =~= spec_joined_names(namesv.take(1)));
            }
        }
        i = i + 1;
    }
    proof {
        assert(namesv.take(namesv.len() as int) =~= namesv);
    }
    out
}

} // verus!
