//! Facts about the script grammar that hold for every line.
use vstd::prelude::*;
use crate::command_types::{
    button_action, classify, dispatch_order, first_match, keyword, mouse_button, parse_fields,
    parse_line, starts_with, ButtonAction, Command, CommandKind, KeyTarget,
};
use crate::keys::key_table;
use crate::text::{
    all_digits, is_digit, join, lemma_join_split, lemma_split_concat, lemma_split_join,
    lemma_split_nonempty, lemma_split_single,
    occurs_in, split_on, strip_sign, u64_field,
};

verus! {

proof fn lemma_differ_at(p: Seq<char>, q: Seq<char>, i: int)
    requires
        0 <= i < p.len(),
        i < q.len(),
        p[i] != q[i],
    ensures
        !starts_with(p, q),
        !starts_with(q, p),
{
    if starts_with(p, q) {
        assert(p.subrange(0, q.len() as int)[i] == p[i]);
    }
    if starts_with(q, p) {
        assert(q.subrange(0, p.len() as int)[i] == q[i]);
    }
}

/// No keyword starts another one: the keyword of a line is never in doubt,
/// whatever order they are tried in.
pub proof fn lemma_keywords_prefix_free(j: CommandKind, k: CommandKind)
    requires
        j != k,
    ensures
        !starts_with(keyword(j), keyword(k)),
{
    reveal_strlit("key_sequence: ");
    reveal_strlit("key: ");
    reveal_strlit("wait: ");
    reveal_strlit("mouse_click: ");
    reveal_strlit("mouse_down: ");
    reveal_strlit("mouse_release: ");
    reveal_strlit("mouse_move: ");
    reveal_strlit("mouse_move_relative: ");
    reveal_strlit("screen_compare_key_click: ");
    match (j, k) {
        (CommandKind::KeySequence, CommandKind::Key) | (CommandKind::Key, CommandKind::KeySequence) => {
            lemma_differ_at(keyword(j), keyword(k), 3);
        },
        (CommandKind::KeySequence, CommandKind::Wait) | (CommandKind::Wait, CommandKind::KeySequence) => {
            lemma_differ_at(keyword(j), keyword(k), 0);
        },
        (CommandKind::KeySequence, CommandKind::MouseClick) | (CommandKind::MouseClick, CommandKind::KeySequence) => {
            lemma_differ_at(keyword(j), keyword(k), 0);
        },
        (CommandKind::KeySequence, CommandKind::MouseDown) | (CommandKind::MouseDown, CommandKind::KeySequence) => {
            lemma_differ_at(keyword(j), keyword(k), 0);
        },
        (CommandKind::KeySequence, CommandKind::MouseRelease) | (CommandKind::MouseRelease, CommandKind::KeySequence) => {
            lemma_differ_at(keyword(j), keyword(k), 0);
        },
        (CommandKind::KeySequence, CommandKind::MouseMove) | (CommandKind::MouseMove, CommandKind::KeySequence) => {
            lemma_differ_at(keyword(j), keyword(k), 0);
        },
        (CommandKind::KeySequence, CommandKind::MouseMoveRelative) | (CommandKind::MouseMoveRelative, CommandKind::KeySequence) => {
            lemma_differ_at(keyword(j), keyword(k), 0);
        },
        (CommandKind::KeySequence, CommandKind::ScreenCompareKeyClick) | (CommandKind::ScreenCompareKeyClick, CommandKind::KeySequence) => {
            lemma_differ_at(keyword(j), keyword(k), 0);
        },
        (CommandKind::Key, CommandKind::Wait) | (CommandKind::Wait, CommandKind::Key) => {
            lemma_differ_at(keyword(j), keyword(k), 0);
        },
        (CommandKind::Key, CommandKind::MouseClick) | (CommandKind::MouseClick, CommandKind::Key) => {
            lemma_differ_at(keyword(j), keyword(k), 0);
        },
        (CommandKind::Key, CommandKind::MouseDown) | (CommandKind::MouseDown, CommandKind::Key) => {
            lemma_differ_at(keyword(j), keyword(k), 0);
        },
        (CommandKind::Key, CommandKind::MouseRelease) | (CommandKind::MouseRelease, CommandKind::Key) => {
            lemma_differ_at(keyword(j), keyword(k), 0);
        },
        (CommandKind::Key, CommandKind::MouseMove) | (CommandKind::MouseMove, CommandKind::Key) => {
            lemma_differ_at(keyword(j), keyword(k), 0);
        },
        (CommandKind::Key, CommandKind::MouseMoveRelative) | (CommandKind::MouseMoveRelative, CommandKind::Key) => {
            lemma_differ_at(keyword(j), keyword(k), 0);
        },
        (CommandKind::Key, CommandKind::ScreenCompareKeyClick) | (CommandKind::ScreenCompareKeyClick, CommandKind::Key) => {
            lemma_differ_at(keyword(j), keyword(k), 0);
        },
        (CommandKind::Wait, CommandKind::MouseClick) | (CommandKind::MouseClick, CommandKind::Wait) => {
            lemma_differ_at(keyword(j), keyword(k), 0);
        },
        (CommandKind::Wait, CommandKind::MouseDown) | (CommandKind::MouseDown, CommandKind::Wait) => {
            lemma_differ_at(keyword(j), keyword(k), 0);
        },
        (CommandKind::Wait, CommandKind::MouseRelease) | (CommandKind::MouseRelease, CommandKind::Wait) => {
            lemma_differ_at(keyword(j), keyword(k), 0);
        },
        (CommandKind::Wait, CommandKind::MouseMove) | (CommandKind::MouseMove, CommandKind::Wait) => {
            lemma_differ_at(keyword(j), keyword(k), 0);
        },
        (CommandKind::Wait, CommandKind::MouseMoveRelative) | (CommandKind::MouseMoveRelative, CommandKind::Wait) => {
            lemma_differ_at(keyword(j), keyword(k), 0);
        },
        (CommandKind::Wait, CommandKind::ScreenCompareKeyClick) | (CommandKind::ScreenCompareKeyClick, CommandKind::Wait) => {
            lemma_differ_at(keyword(j), keyword(k), 0);
        },
        (CommandKind::MouseClick, CommandKind::MouseDown) | (CommandKind::MouseDown, CommandKind::MouseClick) => {
            lemma_differ_at(keyword(j), keyword(k), 6);
        },
        (CommandKind::MouseClick, CommandKind::MouseRelease) | (CommandKind::MouseRelease, CommandKind::MouseClick) => {
            lemma_differ_at(keyword(j), keyword(k), 6);
        },
        (CommandKind::MouseClick, CommandKind::MouseMove) | (CommandKind::MouseMove, CommandKind::MouseClick) => {
            lemma_differ_at(keyword(j), keyword(k), 6);
        },
        (CommandKind::MouseClick, CommandKind::MouseMoveRelative) | (CommandKind::MouseMoveRelative, CommandKind::MouseClick) => {
            lemma_differ_at(keyword(j), keyword(k), 6);
        },
        (CommandKind::MouseClick, CommandKind::ScreenCompareKeyClick) | (CommandKind::ScreenCompareKeyClick, CommandKind::MouseClick) => {
            lemma_differ_at(keyword(j), keyword(k), 0);
        },
        (CommandKind::MouseDown, CommandKind::MouseRelease) | (CommandKind::MouseRelease, CommandKind::MouseDown) => {
            lemma_differ_at(keyword(j), keyword(k), 6);
        },
        (CommandKind::MouseDown, CommandKind::MouseMove) | (CommandKind::MouseMove, CommandKind::MouseDown) => {
            lemma_differ_at(keyword(j), keyword(k), 6);
        },
        (CommandKind::MouseDown, CommandKind::MouseMoveRelative) | (CommandKind::MouseMoveRelative, CommandKind::MouseDown) => {
            lemma_differ_at(keyword(j), keyword(k), 6);
        },
        (CommandKind::MouseDown, CommandKind::ScreenCompareKeyClick) | (CommandKind::ScreenCompareKeyClick, CommandKind::MouseDown) => {
            lemma_differ_at(keyword(j), keyword(k), 0);
        },
        (CommandKind::MouseRelease, CommandKind::MouseMove) | (CommandKind::MouseMove, CommandKind::MouseRelease) => {
            lemma_differ_at(keyword(j), keyword(k), 6);
        },
        (CommandKind::MouseRelease, CommandKind::MouseMoveRelative) | (CommandKind::MouseMoveRelative, CommandKind::MouseRelease) => {
            lemma_differ_at(keyword(j), keyword(k), 6);
        },
        (CommandKind::MouseRelease, CommandKind::ScreenCompareKeyClick) | (CommandKind::ScreenCompareKeyClick, CommandKind::MouseRelease) => {
            lemma_differ_at(keyword(j), keyword(k), 0);
        },
        (CommandKind::MouseMove, CommandKind::MouseMoveRelative) | (CommandKind::MouseMoveRelative, CommandKind::MouseMove) => {
            lemma_differ_at(keyword(j), keyword(k), 10);
        },
        (CommandKind::MouseMove, CommandKind::ScreenCompareKeyClick) | (CommandKind::ScreenCompareKeyClick, CommandKind::MouseMove) => {
            lemma_differ_at(keyword(j), keyword(k), 0);
        },
        (CommandKind::MouseMoveRelative, CommandKind::ScreenCompareKeyClick) | (CommandKind::ScreenCompareKeyClick, CommandKind::MouseMoveRelative) => {
            lemma_differ_at(keyword(j), keyword(k), 0);
        },
        _ => {},
    }
}

/// Where two keywords start a line, they are the same keyword.
pub proof fn lemma_keyword_unique(line: Seq<char>, j: CommandKind, k: CommandKind)
    requires
        starts_with(line, keyword(j)),
        starts_with(line, keyword(k)),
    ensures
        j == k,
{
    if j != k {
        lemma_keywords_prefix_free(j, k);
        lemma_keywords_prefix_free(k, j);
        let (p, q) = (keyword(j), keyword(k));
        if p.len() <= q.len() {
            assert(q.subrange(0, p.len() as int) =~= line.subrange(0, p.len() as int));
        } else {
            assert(p.subrange(0, q.len() as int) =~= line.subrange(0, q.len() as int));
        }
    }
}

proof fn lemma_first_match(line: Seq<char>, kinds: Seq<CommandKind>)
    ensures
        first_match(line, kinds) is None <==> forall|i: int|
            0 <= i < kinds.len() ==> !starts_with(line, keyword(#[trigger] kinds[i])),
        first_match(line, kinds) matches Some(k) ==> starts_with(line, keyword(k)),
    decreases kinds.len(),
{
    if kinds.len() > 0 {
        lemma_first_match(line, kinds.drop_first());
        if first_match(line, kinds) is None {
            assert forall|i: int| 0 <= i < kinds.len() implies !starts_with(
                line,
                keyword(#[trigger] kinds[i]),
            ) by {
                if i > 0 {
                    assert(kinds[i] == kinds.drop_first()[i - 1]);
                }
            }
        } else if !starts_with(line, keyword(kinds[0])) {
            let i = choose|i: int|
                0 <= i < kinds.drop_first().len() && starts_with(
                    line,
                    keyword(#[trigger] kinds.drop_first()[i]),
                );
            assert(kinds[i + 1] == kinds.drop_first()[i]);
        }
    }
}

/// A line that no keyword starts is read as `Wait(1)`.
pub proof fn lemma_unknown_keyword_waits(line: Seq<char>)
    requires
        forall|k: CommandKind| !starts_with(line, #[trigger] keyword(k)),
    ensures
        parse_line(line) == Command::Wait(1),
{
    lemma_first_match(line, dispatch_order());
}

/// The line is read as whatever kind of command its keyword names: the kind
/// is the one keyword that starts it.
pub proof fn lemma_classify_by_keyword(line: Seq<char>, k: CommandKind)
    requires
        starts_with(line, keyword(k)),
    ensures
        classify(line) == Some(k),
{
    lemma_first_match(line, dispatch_order());
    let order = dispatch_order();
    let i: int = match k {
        CommandKind::KeySequence => 0,
        CommandKind::Key => 1,
        CommandKind::Wait => 2,
        CommandKind::MouseClick => 3,
        CommandKind::MouseDown => 4,
        CommandKind::MouseRelease => 5,
        CommandKind::MouseMove => 6,
        CommandKind::MouseMoveRelative => 7,
        CommandKind::ScreenCompareKeyClick => 8,
    };
    assert(order[i] == k);
    match classify(line) {
        Some(j) => {
            lemma_keyword_unique(line, j, k);
        },
        None => {},
    }
}


/// How many space-separated fields each kind of line takes: two for `key`
/// and the mouse moves, one for `wait` and the mouse buttons, seven or more
/// for a screen-gated click, and some text for a key sequence.
pub open spec fn arity_fits(k: CommandKind, rest: Seq<char>) -> bool {
    let n = split_on(rest, ' ').len();
    match k {
        CommandKind::KeySequence => rest.len() > 0,
        CommandKind::Key | CommandKind::MouseMove | CommandKind::MouseMoveRelative => n == 2,
        CommandKind::Wait | CommandKind::MouseClick | CommandKind::MouseDown
        | CommandKind::MouseRelease => n == 1,
        CommandKind::ScreenCompareKeyClick => n >= 7,
    }
}

proof fn lemma_spaced_not_button(rest: Seq<char>)
    requires
        rest.contains(' '),
    ensures
        mouse_button(rest) is None,
        u64_field(rest) is None,
{
    reveal_strlit("left");
    reveal_strlit("right");
    reveal_strlit("middle");
    let j = choose|j: int| 0 <= j < rest.len() && rest[j] == ' ';
    assert(rest != "left"@ && rest != "right"@ && rest != "middle"@) by {
        if rest == "left"@ || rest == "right"@ || rest == "middle"@ {
            assert(rest[j] != ' ');
        }
    }
    let d = strip_sign(rest, '+');
    if d.len() > 0 && all_digits(d) {
        if rest.len() > 0 && rest[0] == '+' {
            assert(d[j - 1] == ' ');
            assert(!is_digit(d[j - 1]));
        } else {
            assert(!is_digit(d[j]));
        }
    }
}

/// A line with a known keyword whose fields are too many or too few for its
/// kind is read as `Wait(1)`.
pub proof fn lemma_wrong_arity_waits(line: Seq<char>, k: CommandKind)
    requires
        starts_with(line, keyword(k)),
        !arity_fits(k, line.skip(keyword(k).len() as int)),
    ensures
        parse_line(line) == Command::Wait(1),
{
    lemma_classify_by_keyword(line, k);
    let rest = line.skip(keyword(k).len() as int);
    match k {
        CommandKind::Wait | CommandKind::MouseClick | CommandKind::MouseDown
        | CommandKind::MouseRelease => {
            if !rest.contains(' ') {
                lemma_split_single(rest, ' ');
            }
            lemma_spaced_not_button(rest);
        },
        _ => {},
    }
}

/// In a well-formed `key: <token> <action>` line the token is a literal
/// character when it is one character long, and otherwise a key of the table
/// (the line falls back to `Wait(1)` when the table lacks it).
pub proof fn lemma_key_line(token: Seq<char>, action: Seq<char>, a: ButtonAction)
    requires
        !token.contains(' '),
        button_action(action) == Some(a),
        !occurs_in(token + seq![' '] + action, "key: "@),
    ensures
        parse_line("key: "@ + token + seq![' '] + action) == if token.len() == 1 {
            Command::KeyUse(KeyTarget::Layout(token[0]), a)
        } else {
            match key_table(token) {
                Some(n) => Command::KeyUse(KeyTarget::Named(n), a),
                None => Command::Wait(1),
            }
        },
{
    reveal_strlit("key: ");
    reveal_strlit("press");
    reveal_strlit("release");
    reveal_strlit("click");
    let line = "key: "@ + token + seq![' '] + action;
    let rest = token + seq![' '] + action;
    assert(line.subrange(0, 5) =~= "key: "@);
    assert(starts_with(line, keyword(CommandKind::Key)));
    lemma_classify_by_keyword(line, CommandKind::Key);
    assert(line.skip(5) =~= rest);
    assert(!action.contains(' ')) by {
        if action.contains(' ') {
            let j = choose|j: int| 0 <= j < action.len() && action[j] == ' ';
            assert(action == "press"@ || action == "release"@ || action == "click"@);
        }
    }
    lemma_split_concat(token, action, ' ');
    lemma_split_single(token, ' ');
    lemma_split_single(action, ' ');
    assert(split_on(rest, ' ') =~= seq![token, action]);
}

/// The path of a screen-gated click is everything after its sixth field,
/// spaces included, exactly as written: splitting the fields on spaces and
/// joining the trailing ones again gives it back.
pub proof fn lemma_screen_compare_path(fields: Seq<Seq<char>>, path: Seq<char>)
    requires
        fields.len() == 6,
        forall|i: int| 0 <= i < 6 ==> !(#[trigger] fields[i]).contains(' '),
    ensures
        ({
            let parts = split_on(join(fields.push(path), ' '), ' ');
            &&& parts.len() >= 7
            &&& parts.take(6) == fields
            &&& join(parts.skip(6), ' ') == path
        }),
        parse_fields(CommandKind::ScreenCompareKeyClick, join(fields.push(path), ' ')) matches Some(
            c,
        ) ==> c matches Command::ConditionalKeyUse { path: p, .. } && p == path,
{
    let all = fields.push(path);
    assert(all.drop_last() =~= fields);
    lemma_split_join(fields, ' ');
    lemma_split_concat(join(fields, ' '), path, ' ');
    assert(join(all, ' ') =~= join(fields, ' ') + seq![' '] + path);
    lemma_split_nonempty(path, ' ');
    let parts = split_on(join(all, ' '), ' ');
    assert(parts.take(6) =~= fields);
    assert(parts.skip(6) =~= split_on(path, ' '));
    lemma_join_split(path, ' ');
}

} // verus!
