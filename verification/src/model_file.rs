//! The simulator's model file, with another damping and another friction.
//!
//! The file is changed as text, line by line. Only joints that move are damped:
//! the damping of a fixed joint is left alone. A block starts with a line `[[..`,
//! and names its type before its damping.

use vstd::prelude::*;
use crate::text::{
    chars_of, find_first, has_char, has_word, holds_text, indent, indent_count, indent_len, is_line,
    is_white, joined, lemma_indent_facts, lemma_indent_len, lemma_joined_push,
    lemma_lines_hold_no_feed, lemma_lines_of_joined, lemma_until, lemma_until_facts, lines_of, slice_of, split_lines, stands_at, string_of, texts, unindented,
    until, word_at,
};

verus! {

/// Whether a text starts with a word.
pub open spec fn starts_with(s: Seq<char>, word: Seq<char>) -> bool {
    stands_at(s, word, 0)
}

/// Whether the block is one of a fixed joint, after a line (without its indent).
pub open spec fn fixed_after_line(fixed: bool, t: Seq<char>) -> bool {
    if starts_with(t, "[["@) {
        false
    } else if starts_with(t, "type"@) && t.contains('=') {
        holds_text(t, "\"fixed\""@)
    } else {
        fixed
    }
}

/// Whether the block is one of a fixed joint, after some lines.
pub open spec fn fixed_after(lines: Seq<Seq<char>>) -> bool
    decreases lines.len(),
{
    if lines.len() == 0 {
        false
    } else {
        fixed_after_line(fixed_after(lines.drop_last()), unindented(lines.last()))
    }
}

/// Whether a line sets the damping of a joint that moves.
pub open spec fn sets_damping(line: Seq<char>, fixed: bool) -> bool {
    !fixed && starts_with(unindented(line), "damping"@) && line.contains('=')
}

/// Whether a line sets the friction of a foot: a list, sliding friction first.
pub open spec fn sets_friction(line: Seq<char>) -> bool {
    starts_with(unindented(line), "friction"@) && line.contains('=') && line.contains('[')
}

/// The line with another first entry in its list.
pub open spec fn with_first_entry(line: Seq<char>, entry: Seq<char>) -> Seq<char> {
    let open = until(line, seq!['[']) as int;
    let rest = line.skip(open + 1);
    line.take(open + 1) + entry + rest.skip(until(rest, seq![',', ']']) as int)
}

/// What becomes of a line.
pub open spec fn new_line(
    line: Seq<char>,
    fixed: bool,
    damping: Seq<char>,
    friction: Option<Seq<char>>,
) -> Seq<char> {
    if sets_damping(line, fixed) {
        indent(line) + "damping = "@ + damping
    } else if friction is Some && sets_friction(line) {
        with_first_entry(line, friction->0)
    } else {
        line
    }
}

/// What becomes of some lines, each ended by a line feed.
pub open spec fn new_text(
    lines: Seq<Seq<char>>,
    damping: Seq<char>,
    friction: Option<Seq<char>>,
) -> Seq<char>
    decreases lines.len(),
{
    if lines.len() == 0 {
        Seq::empty()
    } else {
        (new_text(lines.drop_last(), damping, friction) + new_line(
            lines.last(),
            fixed_after(lines),
            damping,
            friction,
        )).push('\n')
    }
}

/// How many lines set the damping of a joint that moves.
pub open spec fn damped_joints(lines: Seq<Seq<char>>) -> nat
    decreases lines.len(),
{
    if lines.len() == 0 {
        0
    } else {
        damped_joints(lines.drop_last()) + if sets_damping(lines.last(), fixed_after(lines)) {
            1nat
        } else {
            0nat
        }
    }
}

/// The error of a file that sets no damping.
pub open spec fn no_damping(path: Seq<char>) -> Seq<char> {
    path + " に damping の行が見つかりません"@
}

/// A changed model file.
pub struct Rewritten {
    pub text: String,
    /// How many joints were damped anew.
    pub joints: usize,
}

/// The view of an optional word.
pub open spec fn word_view(word: Option<&str>) -> Option<Seq<char>> {
    match word {
        Some(w) => Some(w@),
        None => None,
    }
}

fn lead_with(chars: &Vec<char>, word: &str) -> (yes: bool)
    ensures
        yes == starts_with(chars@, word@),
{
    let w = chars_of(word);
    word_at(chars, &w, 0)
}

fn hold_word(chars: &Vec<char>, word: &str) -> (yes: bool)
    ensures
        yes == holds_text(chars@, word@),
{
    let w = chars_of(word);
    has_word(chars, &w)
}

fn fixed_by(fixed: bool, t: &Vec<char>) -> (now: bool)
    ensures
        now == fixed_after_line(fixed, t@),
{
    if lead_with(t, "[[") {
        false
    } else if lead_with(t, "type") && has_char(t, '=') {
        hold_word(t, "\"fixed\"")
    } else {
        fixed
    }
}

fn put_first_entry(line: &Vec<char>, entry: &str) -> (changed: String)
    requires
        line@.contains('['),
    ensures
        changed@ == with_first_entry(line@, entry@),
{
    let bracket: Vec<char> = vec!['['];
    assert(bracket@ =~= seq!['[']);
    let open: usize = find_first(line, &bracket);
    proof {
        lemma_bracket_within(line@);
    }
    let rest = slice_of(line, open + 1, line.len());
    assert(rest@ =~= line@.skip(open + 1));
    let ends: Vec<char> = vec![',', ']'];
    assert(ends@ =~= seq![',', ']']);
    let end: usize = find_first(&rest, &ends);
    let head = slice_of(line, 0, open + 1);
    assert(head@ =~= line@.take(open + 1));
    let tail = slice_of(&rest, end, rest.len());
    assert(tail@ =~= rest@.skip(end as int));
    let mut changed = string_of(&head);
    changed.append(entry);
    changed.append(string_of(&tail).as_str());
    changed
}

/// Whether changing a model file comes out as `result`.
pub open spec fn rewrites(
    path: Seq<char>,
    lines: Seq<Seq<char>>,
    damping: Seq<char>,
    friction: Option<Seq<char>>,
    result: Result<Rewritten, String>,
) -> bool {
    match result {
        Ok(out) => {
            &&& out.text@ == new_text(lines, damping, friction)
            &&& out.joints == damped_joints(lines)
            &&& out.joints > 0
        },
        Err(e) => damped_joints(lines) == 0 && e@ == no_damping(path),
    }
}

/// Changes the damping of all joints that move, and the sliding friction of the
/// feet where one is given. `path` names the file in the error.
pub fn misa_with_damping(
    path: &str,
    text: &str,
    damping: &str,
    friction: Option<&str>,
) -> (result: Result<Rewritten, String>)
    ensures
        rewrites(path@, lines_of(text@), damping@, word_view(friction), result),
        match result {
            Ok(out) => {
                &&& out.text@ == new_text(lines_of(text@), damping@, word_view(friction))
                &&& out.joints == damped_joints(lines_of(text@))
                &&& out.joints > 0
            },
            Err(e) => damped_joints(lines_of(text@)) == 0 && e@ == no_damping(path@),
        },
{
    let chars = chars_of(text);
    let lines = split_lines(&chars);
    let ghost all = lines_of(text@);
    assert(texts(lines@) == all);
    let mut out = String::new();
    let mut joints: usize = 0;
    let mut fixed = false;
    for i in 0..lines.len()
        invariant
            texts(lines@) == all,
            fixed == fixed_after(all.take(i as int)),
            joints == damped_joints(all.take(i as int)),
            joints <= i,
            out@ == new_text(all.take(i as int), damping@, word_view(friction)),
    {
        let line = &lines[i];
        let ghost upto = all.take(i + 1);
        proof {
            assert(texts(lines@)[i as int] == line@);
            assert(upto.drop_last() =~= all.take(i as int));
            assert(upto.last() == line@);
        }
        let margin: usize = indent_count(line);
        let t = slice_of(line, margin, line.len());
        assert(t@ =~= unindented(line@));
        fixed = fixed_by(fixed, &t);
        if !fixed && lead_with(&t, "damping") && has_char(line, '=') {
            let blank = slice_of(line, 0, margin);
            assert(blank@ =~= indent(line@));
            let ghost before = out@;
            out.append(string_of(&blank).as_str());
            out.append("damping = ");
            out.append(damping);
            assert(out@ =~= before + (indent(line@) + "damping = "@ + damping@));
            joints = joints + 1;
        } else if friction.is_some() && lead_with(&t, "friction") && has_char(line, '=') && has_char(
            line,
            '[',
        ) {
            let entry = friction.unwrap();
            out.append(put_first_entry(line, entry).as_str());
        } else {
            out.append(string_of(line).as_str());
        }
        out.push('\n');
    }
    assert(all.take(lines.len() as int) =~= all);
    if joints == 0 {
        let mut e = path.to_owned();
        e.append(" に damping の行が見つかりません");
        return Err(e);
    }
    Ok(Rewritten { text: out, joints })
}

/// The name of the changed file, from the stem of the original one.
pub open spec fn changed_name(stem: Seq<char>, damping: Seq<char>) -> Seq<char> {
    stem + "_damp"@ + damping + ".misa"@
}

/// The stem that a changed file is named by.
pub open spec fn stem_taken(stem: Option<&str>) -> Seq<char> {
    match stem {
        Some(s) => s@,
        None => "model"@,
    }
}

/// The name of a changed file that is hidden beside the original one.
pub open spec fn hidden_name(stem: Seq<char>, damping: Seq<char>) -> Seq<char> {
    "."@ + changed_name(stem, damping)
}

/// The name of the changed file in the directory for temporary files; `model` where
/// the original one has no stem.
pub fn temporary_name(stem: Option<&str>, damping: &str) -> (name: String)
    ensures
        name@ == changed_name(stem_taken(stem), damping@),
        name@ == changed_name(
            match stem {
                Some(s) => s@,
                None => "model"@,
            },
            damping@,
        ),
{
    let mut name = match stem {
        Some(s) => s.to_owned(),
        None => "model".to_owned(),
    };
    name.append("_damp");
    name.append(damping);
    name.append(".misa");
    name
}

/// The name of the changed file beside the original one, where the meshes are found
/// from: the same, hidden.
pub fn neighbour_name(stem: Option<&str>, damping: &str) -> (name: String)
    ensures
        name@ == hidden_name(stem_taken(stem), damping@),
        name@ == "."@ + changed_name(
            match stem {
                Some(s) => s@,
                None => "model"@,
            },
            damping@,
        ),
{
    let mut name = ".".to_owned();
    name.append(temporary_name(stem, damping).as_str());
    name
}

/// A fixed joint keeps its damping: inside its block, a line that is no friction
/// stays as it is.
pub proof fn law_fixed_joints_keep_their_damping(
    line: Seq<char>,
    damping: Seq<char>,
    friction: Option<Seq<char>>,
)
    requires
        !sets_friction(line),
    ensures
        new_line(line, true, damping, friction) == line,
{
}

/// Without a friction, only damping changes: every line but those that set the
/// damping of a joint that moves stays as it is.
pub proof fn law_only_damping_changes(line: Seq<char>, fixed: bool, damping: Seq<char>)
    requires
        !sets_damping(line, fixed),
    ensures
        new_line(line, fixed, damping, None) == line,
{
}

/// What becomes of each line.
pub open spec fn new_lines(
    lines: Seq<Seq<char>>,
    damping: Seq<char>,
    friction: Option<Seq<char>>,
) -> Seq<Seq<char>> {
    Seq::new(
        lines.len(),
        |i: int| new_line(lines[i], fixed_after(lines.take(i + 1)), damping, friction),
    )
}

/// Whether every line that is not damped anew ends without a carriage return in the
/// changed file, so that it is read back as it was written.
pub open spec fn kept_lines_end(
    lines: Seq<Seq<char>>,
    damping: Seq<char>,
    friction: Option<Seq<char>>,
) -> bool {
    forall|i: int|
        0 <= i < lines.len() && !sets_damping(#[trigger] lines[i], fixed_after(lines.take(i + 1)))
            ==> is_line(new_lines(lines, damping, friction)[i])
}

/// The changed file has the lines of the original one, in their order, each as
/// [`new_line`] says: no line is lost, joined or cut. A line that is damped anew may
/// have ended in any way; the others must not end in a lone carriage return.
pub proof fn law_lines_stay_lines(
    text: Seq<char>,
    damping: Seq<char>,
    friction: Option<Seq<char>>,
)
    requires
        kept_lines_end(lines_of(text), damping, friction),
        is_line(damping),
    ensures
        lines_of(new_text(lines_of(text), damping, friction)) == new_lines(
            lines_of(text),
            damping,
            friction,
        ),
{
    let lines = lines_of(text);
    let news = new_lines(lines, damping, friction);
    lemma_new_text_is_joined(lines, damping, friction);
    lemma_lines_hold_no_feed(text);
    assert forall|i: int| 0 <= i < news.len() implies is_line(#[trigger] news[i]) by {
        let fixed = fixed_after(lines.take(i + 1));
        assert(!lines[i].contains('\n'));
        if sets_damping(lines[i], fixed) {
            lemma_damped_line_is_line(lines[i], damping);
        }
    }
    lemma_lines_of_joined(news);
}

proof fn lemma_new_text_is_joined(
    lines: Seq<Seq<char>>,
    damping: Seq<char>,
    friction: Option<Seq<char>>,
)
    ensures
        new_text(lines, damping, friction) == joined(new_lines(lines, damping, friction)),
    decreases lines.len(),
{
    let news = new_lines(lines, damping, friction);
    if lines.len() > 0 {
        let front = lines.drop_last();
        lemma_new_text_is_joined(front, damping, friction);
        let before = new_lines(front, damping, friction);
        assert forall|i: int| 0 <= i < before.len() implies before[i] == news[i] by {
            assert(front.take(i + 1) =~= lines.take(i + 1));
        }
        assert(lines.take(lines.len() as int) =~= lines);
        let last = new_line(lines.last(), fixed_after(lines), damping, friction);
        assert(news =~= before.push(last));
        lemma_joined_push(before, last);
        assert((joined(before) + last).push('\n') =~= joined(before) + last.push('\n'));
    } else {
        assert(news =~= Seq::empty());
    }
}

proof fn lemma_damped_line_is_line(line: Seq<char>, damping: Seq<char>)
    requires
        !line.contains('\n'),
        is_line(damping),
    ensures
        is_line(indent(line) + "damping = "@ + damping),
{
    reveal_strlit("damping = ");
    lemma_indent_facts(line);
    let key = "damping = "@;
    let new = indent(line) + key + damping;
    if new.contains('\n') {
        let k = new.index_of('\n');
        let a = indent(line).len() as int;
        if k < a {
            assert(line[k] == '\n');
        } else if k < a + key.len() {
            assert(key[k - a] == '\n');
        } else {
            assert(damping[k - a - key.len()] == '\n');
        }
    }
    if damping.len() > 0 {
        assert(new.last() == damping.last());
    } else {
        assert(new.last() == key.last());
    }
}

/// A bracket that a line holds is found before its end.
proof fn lemma_bracket_within(line: Seq<char>)
    requires
        line.contains('['),
    ensures
        until(line, seq!['[']) < line.len(),
{
    lemma_until_facts(line, seq!['[']);
    let i = line.index_of('[');
    assert(seq!['['][0] == '[');
    if until(line, seq!['[']) >= line.len() {
        assert(!seq!['['].contains(line[i]));
    }
}

/// Whether a text can stand as an entry of a list.
pub open spec fn is_entry(entry: Seq<char>) -> bool {
    !entry.contains(',') && !entry.contains(']')
}

/// Changing a file twice is changing it once: the same values leave a changed file
/// as it is.
pub proof fn law_changing_twice_is_changing_once(
    text: Seq<char>,
    damping: Seq<char>,
    friction: Option<Seq<char>>,
)
    requires
        kept_lines_end(lines_of(text), damping, friction),
        is_line(damping),
        friction matches Some(f) ==> is_entry(f),
    ensures
        ({
            let once = new_text(lines_of(text), damping, friction);
            new_text(lines_of(once), damping, friction) == once
        }),
{
    let lines = lines_of(text);
    let news = new_lines(lines, damping, friction);
    law_lines_stay_lines(text, damping, friction);
    lemma_new_text_is_joined(lines, damping, friction);
    lemma_new_text_is_joined(news, damping, friction);
    assert forall|i: int| 0 <= i < news.len() implies new_line(
        news[i],
        fixed_after(news.take(i + 1)),
        damping,
        friction,
    ) == news[i] by {
        lemma_blocks_stay(lines, damping, friction, i + 1);
        lemma_new_line_stays(lines[i], fixed_after(lines.take(i + 1)), damping, friction);
    }
    assert(new_lines(news, damping, friction) =~= news);
}

/// The changed lines lie in the same blocks.
proof fn lemma_blocks_stay(
    lines: Seq<Seq<char>>,
    damping: Seq<char>,
    friction: Option<Seq<char>>,
    n: int,
)
    requires
        0 <= n <= lines.len(),
        friction matches Some(f) ==> is_entry(f),
    ensures
        fixed_after(new_lines(lines, damping, friction).take(n)) == fixed_after(lines.take(n)),
    decreases n,
{
    let news = new_lines(lines, damping, friction);
    if n > 0 {
        lemma_blocks_stay(lines, damping, friction, n - 1);
        assert(news.take(n).drop_last() =~= news.take(n - 1));
        assert(lines.take(n).drop_last() =~= lines.take(n - 1));
        lemma_key_stays(
            lines[n - 1],
            fixed_after(lines.take(n - 1)),
            damping,
            friction,
        );
    } else {
        assert(news.take(0) =~= Seq::empty());
        assert(lines.take(0) =~= Seq::empty());
    }
}

/// A changed line tells the same of its block.
proof fn lemma_key_stays(
    line: Seq<char>,
    before: bool,
    damping: Seq<char>,
    friction: Option<Seq<char>>,
)
    requires
        friction matches Some(f) ==> is_entry(f),
    ensures
        ({
            let fixed = fixed_after_line(before, unindented(line));
            fixed_after_line(before, unindented(new_line(line, fixed, damping, friction))) == fixed
        }),
{
    let fixed = fixed_after_line(before, unindented(line));
    if sets_damping(line, fixed) {
        lemma_damped_line(line, damping);
        lemma_no_block_key(before, unindented(line));
        lemma_no_block_key(before, unindented(new_line(line, fixed, damping, friction)));
    } else if friction is Some && sets_friction(line) {
        lemma_entry_line(line, friction->0);
        lemma_no_block_key(before, unindented(line));
        lemma_no_block_key(before, unindented(new_line(line, fixed, damping, friction)));
    }
}

/// A line that sets damping or friction tells nothing of its block.
proof fn lemma_no_block_key(before: bool, t: Seq<char>)
    requires
        starts_with(t, "damping"@) || starts_with(t, "friction"@),
    ensures
        fixed_after_line(before, t) == before,
{
    reveal_strlit("damping");
    reveal_strlit("friction");
    reveal_strlit("[[");
    reveal_strlit("type");
    lemma_first_char(t, "damping"@);
    lemma_first_char(t, "friction"@);
    lemma_first_char(t, "[["@);
    lemma_first_char(t, "type"@);
}

proof fn lemma_first_char(t: Seq<char>, word: Seq<char>)
    requires
        word.len() > 0,
    ensures
        starts_with(t, word) ==> t.len() > 0 && t[0] == word[0],
{
    if starts_with(t, word) {
        assert(t.subrange(0, word.len() as int)[0] == word[0]);
    }
}

/// A line that sets the damping keeps its indent and still sets the damping.
proof fn lemma_damped_line(line: Seq<char>, damping: Seq<char>)
    requires
        starts_with(unindented(line), "damping"@),
    ensures
        ({
            let n = indent(line) + "damping = "@ + damping;
            indent(n) == indent(line) && starts_with(unindented(n), "damping"@) && n.contains('=')
        }),
{
    reveal_strlit("damping");
    reveal_strlit("damping = ");
    lemma_indent_facts(line);
    let n = indent(line) + "damping = "@ + damping;
    let k = indent_len(line) as int;
    assert(n[k] == 'd');
    assert forall|j: int| 0 <= j < k implies is_white(#[trigger] n[j]) by {
        assert(n[j] == line[j]);
    }
    lemma_indent_len(n, k);
    assert(indent(n) =~= indent(line));
    assert(unindented(n).subrange(0, 7) =~= "damping"@);
    assert(n[k + 8] == '=');
}

/// A line that sets the friction still starts as it did, up to the bracket, and a
/// second entry in place of the first comes out as at once.
proof fn lemma_entry_line(line: Seq<char>, entry: Seq<char>)
    requires
        sets_friction(line),
        is_entry(entry),
    ensures
        starts_with(unindented(with_first_entry(line, entry)), "friction"@),
        with_first_entry(with_first_entry(line, entry), entry) == with_first_entry(line, entry),
{
    reveal_strlit("friction");
    lemma_indent_facts(line);
    lemma_bracket_within(line);
    lemma_until_facts(line, seq!['[']);
    let open = until(line, seq!['[']) as int;
    let rest = line.skip(open + 1);
    let stops = seq![',', ']'];
    lemma_until_facts(rest, stops);
    let end = until(rest, stops) as int;
    let tail = rest.skip(end);
    let n = with_first_entry(line, entry);
    let k = indent_len(line) as int;
    let key = "friction"@;
    assert(seq!['['][0] == '[');
    assert(line[open] == '[');
    assert forall|j: int| 0 <= j < 8 implies line[k + j] == key[j] by {
        assert(unindented(line).subrange(0, 8)[j] == key[j]);
    }
    assert(open >= k + 8) by {
        if open < k {
            assert(is_white(line[open]));
        } else if open < k + 8 {
            assert(line[k + (open - k)] == key[open - k]);
        }
    }
    assert forall|j: int| 0 <= j <= open implies #[trigger] n[j] == line[j] by {}
    assert forall|j: int| 0 <= j < k implies is_white(#[trigger] n[j]) by {
        assert(n[j] == line[j]);
    }
    assert(n[k] == line[k]);
    lemma_indent_len(n, k);
    assert(unindented(n).subrange(0, 8) =~= key);
    assert forall|j: int| 0 <= j < open implies !seq!['['].contains(#[trigger] n[j]) by {
        assert(n[j] == line[j]);
    }
    lemma_until(n, seq!['['], open);
    let after = n.skip(open + 1);
    assert(after =~= entry + tail);
    assert forall|j: int| 0 <= j < entry.len() implies !stops.contains(#[trigger] after[j]) by {
        assert(after[j] == entry[j]);
        assert(entry.contains(entry[j]));
    }
    if entry.len() < after.len() {
        assert(after[entry.len() as int] == rest[end]);
    }
    lemma_until(after, stops, entry.len() as int);
    assert(after.skip(entry.len() as int) =~= tail);
    assert(n.take(open + 1) =~= line.take(open + 1));
    assert(with_first_entry(n, entry) =~= n);
}

/// A changed line is not changed again.
proof fn lemma_new_line_stays(
    line: Seq<char>,
    fixed: bool,
    damping: Seq<char>,
    friction: Option<Seq<char>>,
)
    requires
        friction matches Some(f) ==> is_entry(f),
    ensures
        ({
            let n = new_line(line, fixed, damping, friction);
            new_line(n, fixed, damping, friction) == n
        }),
{
    let n = new_line(line, fixed, damping, friction);
    if sets_damping(line, fixed) {
        lemma_damped_line(line, damping);
    } else if friction is Some && sets_friction(line) {
        reveal_strlit("damping");
        reveal_strlit("friction");
        lemma_entry_line(line, friction->0);
        lemma_first_char(unindented(n), "damping"@);
        lemma_first_char(unindented(n), "friction"@);
    }
}

/// A line sets the damping of a joint that moves exactly where its block is not that of
/// a fixed joint, its first word starts with `damping`, and it assigns something.
pub proof fn law_which_lines_set_damping(line: Seq<char>, fixed: bool)
    ensures
        sets_damping(line, fixed) <==> !fixed && stands_at(unindented(line), "damping"@, 0)
            && line.contains('='),
        sets_friction(line) <==> stands_at(unindented(line), "friction"@, 0) && line.contains('=')
            && line.contains('['),
{
}

/// A line that sets the damping of a joint that moves keeps its indent and sets the
/// new value.
pub proof fn law_a_damped_line_sets_the_new_value(
    line: Seq<char>,
    damping: Seq<char>,
    friction: Option<Seq<char>>,
)
    requires
        stands_at(unindented(line), "damping"@, 0),
        line.contains('='),
    ensures
        new_line(line, false, damping, friction) == indent(line) + "damping = "@ + damping,
{
}

/// A line that sets a friction keeps everything but the first entry of its list, and
/// has the new entry in its place.
pub proof fn law_a_friction_line_changes_its_first_entry(
    head: Seq<char>,
    entry: Seq<char>,
    rest: Seq<char>,
    fixed: bool,
    damping: Seq<char>,
    new_entry: Seq<char>,
)
    requires
        !head.contains('['),
        !entry.contains(',') && !entry.contains(']'),
        rest.len() > 0 && (rest[0] == ',' || rest[0] == ']'),
        sets_friction(head.push('[') + entry + rest),
    ensures
        new_line(head.push('[') + entry + rest, fixed, damping, Some(new_entry)) == head.push('[')
            + new_entry + rest,
        new_line(head.push('[') + entry + rest, fixed, damping, None) == head.push('[') + entry
            + rest,
{
    let line = head.push('[') + entry + rest;
    let n = head.len() as int;
    reveal_strlit("damping");
    reveal_strlit("friction");
    lemma_first_char(unindented(line), "damping"@);
    lemma_first_char(unindented(line), "friction"@);
    assert(seq!['['][0] == '[');
    assert forall|j: int| 0 <= j < n implies !seq!['['].contains(#[trigger] line[j]) by {
        assert(line[j] == head[j]);
        assert(head.contains(head[j]));
    }
    assert(line[n] == '[');
    lemma_until(line, seq!['['], n);
    let after = line.skip(n + 1);
    assert(after =~= entry + rest);
    let stops = seq![',', ']'];
    assert(stops[0] == ',' && stops[1] == ']');
    assert forall|j: int| 0 <= j < entry.len() implies !stops.contains(#[trigger] after[j]) by {
        assert(after[j] == entry[j]);
        assert(entry.contains(entry[j]));
    }
    assert(after[entry.len() as int] == rest[0]);
    lemma_until(after, stops, entry.len() as int);
    assert(after.skip(entry.len() as int) =~= rest);
    assert(line.take(n + 1) =~= head.push('['));
    assert(with_first_entry(line, new_entry) =~= head.push('[') + new_entry + rest);
}

/// The block decides: a line that opens one clears what was known of it, a line with
/// its type tells whether it is fixed, and any other line leaves that as it is.
pub proof fn law_blocks_tell_whether_they_are_fixed(
    lines: Seq<Seq<char>>,
    line: Seq<char>,
)
    ensures
        !fixed_after(Seq::empty()),
        stands_at(unindented(line), "[["@, 0) ==> !fixed_after(lines.push(line)),
        !stands_at(unindented(line), "[["@, 0) && stands_at(unindented(line), "type"@, 0)
            && unindented(line).contains('=') ==> fixed_after(lines.push(line)) == holds_text(
            unindented(line),
            "\"fixed\""@,
        ),
        !stands_at(unindented(line), "[["@, 0) && !(stands_at(unindented(line), "type"@, 0)
            && unindented(line).contains('=')) ==> fixed_after(lines.push(line)) == fixed_after(
            lines,
        ),
{
    assert(lines.push(line).drop_last() =~= lines);
}

/// Lines are rewritten and counted one by one: a further line adds what becomes of it,
/// ended by a line feed, and one to the count where it is damped anew.
pub proof fn law_lines_are_rewritten_one_by_one(
    lines: Seq<Seq<char>>,
    line: Seq<char>,
    damping: Seq<char>,
    friction: Option<Seq<char>>,
)
    ensures
        new_text(Seq::empty(), damping, friction) == Seq::<char>::empty(),
        new_text(lines.push(line), damping, friction) == new_text(lines, damping, friction)
            + new_line(line, fixed_after(lines.push(line)), damping, friction) + seq!['\n'],
        damped_joints(Seq::empty()) == 0,
        damped_joints(lines.push(line)) == damped_joints(lines) + if sets_damping(
            line,
            fixed_after(lines.push(line)),
        ) {
            1nat
        } else {
            0nat
        },
{
    let all = lines.push(line);
    assert(all.drop_last() =~= lines);
    assert(new_text(all, damping, friction) =~= new_text(lines, damping, friction) + new_line(
        line,
        fixed_after(all),
        damping,
        friction,
    ) + seq!['\n']);
}

/// A file is refused exactly where no line sets the damping of a joint that moves.
pub proof fn law_joints_are_counted_where_damping_is_set(lines: Seq<Seq<char>>)
    ensures
        damped_joints(lines) == 0 <==> forall|i: int|
            0 <= i < lines.len() ==> !sets_damping(
                #[trigger] lines[i],
                fixed_after(lines.take(i + 1)),
            ),
        damped_joints(lines) <= lines.len(),
    decreases lines.len(),
{
    if lines.len() > 0 {
        let front = lines.drop_last();
        law_joints_are_counted_where_damping_is_set(front);
        assert forall|i: int| 0 <= i < front.len() implies front.take(i + 1) == #[trigger] lines.take(
            i + 1,
        ) by {
            assert(front.take(i + 1) =~= lines.take(i + 1));
        }
        assert(lines.take(lines.len() as int) =~= lines);
        let n = lines.len() - 1;
        if damped_joints(lines) == 0 {
            assert forall|i: int| 0 <= i < lines.len() implies !sets_damping(
                #[trigger] lines[i],
                fixed_after(lines.take(i + 1)),
            ) by {
                if i < n {
                    assert(front[i] == lines[i]);
                    assert(front.take(i + 1) =~= lines.take(i + 1));
                }
            }
        }
        if forall|i: int|
            0 <= i < lines.len() ==> !sets_damping(
                #[trigger] lines[i],
                fixed_after(lines.take(i + 1)),
            ) {
            assert forall|i: int| 0 <= i < front.len() implies !sets_damping(
                #[trigger] front[i],
                fixed_after(front.take(i + 1)),
            ) by {
                assert(front[i] == lines[i]);
                assert(front.take(i + 1) =~= lines.take(i + 1));
            }
            assert(!sets_damping(lines[n], fixed_after(lines.take(n + 1))));
        }
    }
}

/// The changed file is named after the original one and its damping.
pub proof fn law_changed_files_carry_their_stem(stem: Seq<char>, damping: Seq<char>)
    ensures
        changed_name(stem, damping) == stem + "_damp"@ + damping + ".misa"@,
{
}

/// The file beside the original one has the name of the temporary one behind a dot, so
/// that it is hidden; a file without a stem is named as if its stem were `model`.
pub proof fn law_the_neighbour_is_the_hidden_twin(stem: Seq<char>, damping: Seq<char>)
    ensures
        hidden_name(stem, damping).len() == changed_name(stem, damping).len() + 1,
        hidden_name(stem, damping)[0] == '.',
        hidden_name(stem, damping).skip(1) == changed_name(stem, damping),
        changed_name(stem_taken(None), damping) == "model_damp"@ + damping + ".misa"@,
{
    reveal_strlit(".");
    assert(hidden_name(stem, damping).skip(1) =~= changed_name(stem, damping));
    reveal_strlit("model");
    reveal_strlit("_damp");
    reveal_strlit("model_damp");
    assert(changed_name(stem_taken(None), damping) =~= "model_damp"@ + damping + ".misa"@);
}

/// A file is changed exactly where one of its lines sets the damping of a joint that
/// moves: one such line is enough, and a file without any is refused by its path.
pub proof fn law_one_damped_joint_is_enough(
    path: Seq<char>,
    lines: Seq<Seq<char>>,
    damping: Seq<char>,
    friction: Option<Seq<char>>,
    result: Result<Rewritten, String>,
)
    requires
        rewrites(path, lines, damping, friction, result),
    ensures
        result is Ok <==> exists|i: int|
            0 <= i < lines.len() && #[trigger] sets_damping(lines[i], fixed_after(lines.take(i + 1))),
        result matches Err(e) ==> e@ == path + " に damping の行が見つかりません"@,
        result matches Ok(out) ==> out.joints >= 1 && out.joints == damped_joints(lines),
{
    lemma_some_line_sets_damping(lines);
}

proof fn lemma_some_line_sets_damping(lines: Seq<Seq<char>>)
    ensures
        damped_joints(lines) > 0 <==> exists|i: int|
            0 <= i < lines.len() && #[trigger] sets_damping(lines[i], fixed_after(lines.take(i + 1))),
    decreases lines.len(),
{
    if lines.len() > 0 {
        let front = lines.drop_last();
        let last = lines.len() - 1;
        lemma_some_line_sets_damping(front);
        assert(lines.take(last + 1) =~= lines);
        if damped_joints(front) > 0 {
            let i = choose|i: int|
                0 <= i < front.len() && #[trigger] sets_damping(
                    front[i],
                    fixed_after(front.take(i + 1)),
                );
            assert(front.take(i + 1) =~= lines.take(i + 1));
            assert(sets_damping(lines[i], fixed_after(lines.take(i + 1))));
        } else if sets_damping(lines.last(), fixed_after(lines)) {
            assert(sets_damping(lines[last], fixed_after(lines.take(last + 1))));
        } else {
            assert forall|i: int| 0 <= i < lines.len() implies !#[trigger] sets_damping(
                lines[i],
                fixed_after(lines.take(i + 1)),
            ) by {
                if i < last {
                    assert(front.take(i + 1) =~= lines.take(i + 1));
                    assert(!sets_damping(front[i], fixed_after(front.take(i + 1))));
                }
            }
        }
    }
}

} // verus!
