//! Command lines for the isolated window.
use vstd::prelude::*;

use crate::text::{chars_of, join_texts, joined, push_text, string_views, text_of};

verus! {

/// A run of backslashes.
pub open spec fn backslashes(count: nat) -> Seq<char> {
    Seq::new(count, |i: int| '\\')
}

/// Whether a character separates the arguments of a Windows command line.
pub open spec fn is_blank(character: char) -> bool {
    character == ' ' || character == '\t'
}

/// Whether an argument stands on a Windows command line as it is.
pub open spec fn is_plain(argument: Seq<char>) -> bool {
    &&& argument.len() > 0
    &&& forall|i: int| 0 <= i < argument.len() ==> !is_blank(#[trigger] argument[i]) && argument[i] != '"'
}

/// An argument as it stands between double quotes, behind `pending` backslashes that are yet to
/// be written. Backslashes in front of a double quote, and those at the end, are doubled; a double
/// quote gets a backslash of its own.
pub open spec fn escaped(argument: Seq<char>, pending: nat) -> Seq<char>
    decreases argument.len(),
{
    if argument.len() == 0 {
        backslashes(2 * pending)
    } else if argument.first() == '\\' {
        escaped(argument.drop_first(), pending + 1)
    } else if argument.first() == '"' {
        backslashes(2 * pending + 1) + seq!['"'] + escaped(argument.drop_first(), 0)
    } else {
        backslashes(pending) + seq![argument.first()] + escaped(argument.drop_first(), 0)
    }
}

/// An argument as it stands on a Windows command line.
pub open spec fn quoted_argument(argument: Seq<char>) -> Seq<char> {
    if is_plain(argument) {
        argument
    } else {
        seq!['"'] + escaped(argument, 0) + seq!['"']
    }
}

/// The Windows command line that carries some arguments.
pub open spec fn command_line_of(arguments: Seq<Seq<char>>) -> Seq<char> {
    joined(arguments.map_values(|argument: Seq<char>| quoted_argument(argument)), seq![' '])
}

fn push_backslashes(chars: &mut Vec<char>, count: usize)
    ensures
        final(chars)@ == old(chars)@ + backslashes(count as nat),
{
    let ghost before = chars@;
    let mut i: usize = 0;
    while i < count
        invariant
            i <= count,
            chars@ == before + backslashes(i as nat),
        decreases count - i,
    {
        chars.push('\\');
        i += 1;
        assert(chars@ =~= before + backslashes(i as nat));
    }
}

/// Quotes one argument for a Windows command line.
pub fn quote_windows_argument(argument: &str) -> (result: String)
    ensures
        result@ == quoted_argument(argument@),
{
    let chars = chars_of(argument);
    let mut plain = chars.len() > 0;
    let mut i: usize = 0;
    while i < chars.len()
        invariant
            i <= chars@.len(),
            plain == (chars@.len() > 0 && forall|j: int|
                0 <= j < i ==> !is_blank(#[trigger] chars@[j]) && chars@[j] != '"'),
        decreases chars@.len() - i,
    {
        let character = chars[i];
        if character == ' ' || character == '\t' || character == '"' {
            plain = false;
        }
        i += 1;
    }
    if plain {
        return text_of(chars.as_slice());
    }
    let mut quoted: Vec<char> = vec!['"'];
    let mut pending: usize = 0;
    let mut at: usize = 0;
    proof {
        assert(chars@.skip(0) =~= chars@);
        assert(quoted@ + escaped(chars@.skip(0), 0) =~= seq!['"'] + escaped(chars@, 0));
    }
    while at < chars.len()
        invariant
            pending <= at <= chars@.len(),
            quoted@ + escaped(chars@.skip(at as int), pending as nat) == seq!['"'] + escaped(
                chars@,
                0,
            ),
        decreases chars@.len() - at,
    {
        let character = chars[at];
        let ghost before = quoted@;
        let ghost rest = chars@.skip(at as int);
        assert(rest.drop_first() =~= chars@.skip(at + 1));
        if character == '\\' {
            pending += 1;
        } else if character == '"' {
            push_backslashes(&mut quoted, pending);
            push_backslashes(&mut quoted, pending);
            quoted.push('\\');
            quoted.push('"');
            proof {
                assert(quoted@ =~= before + (backslashes((2 * pending + 1) as nat) + seq!['"']));
                assert(quoted@ + escaped(chars@.skip(at + 1), 0) =~= before + escaped(
                    rest,
                    pending as nat,
                ));
            }
            pending = 0;
        } else {
            push_backslashes(&mut quoted, pending);
            quoted.push(character);
            proof {
                assert(quoted@ =~= before + (backslashes(pending as nat) + seq![character]));
                assert(quoted@ + escaped(chars@.skip(at + 1), 0) =~= before + escaped(
                    rest,
                    pending as nat,
                ));
            }
            pending = 0;
        }
        at += 1;
    }
    let ghost before = quoted@;
    push_backslashes(&mut quoted, pending);
    push_backslashes(&mut quoted, pending);
    quoted.push('"');
    proof {
        assert(chars@.skip(at as int) =~= Seq::<char>::empty());
        assert(quoted@ =~= before + backslashes((2 * pending) as nat) + seq!['"']);
    }
    text_of(quoted.as_slice())
}

/// Builds the Windows command line for some arguments.
pub fn windows_command_line(arguments: &[String]) -> (result: String)
    ensures
        result@ == command_line_of(string_views(arguments@)),
{
    let mut quoted: Vec<String> = Vec::new();
    let mut i: usize = 0;
    while i < arguments.len()
        invariant
            i <= arguments@.len(),
            quoted@.len() == i,
            forall|j: int|
                0 <= j < i ==> (#[trigger] quoted@[j])@ == quoted_argument(arguments@[j]@),
        decreases arguments@.len() - i,
    {
        quoted.push(quote_windows_argument(arguments[i].as_str()));
        i += 1;
    }
    assert(string_views(quoted@) =~= string_views(arguments@).map_values(
        |argument: Seq<char>| quoted_argument(argument),
    ));
    proof {
        reveal_strlit(" ");
    }
    assert(" "@ =~= seq![' ']);
    join_texts(quoted.as_slice(), " ")
}

/// How a Windows program reads one argument of its command line: the argument, and what is left
/// of the line behind it. `quoted` tells whether a double quote is open; `pending` counts the
/// backslashes read just before. Backslashes stand for themselves unless a double quote follows:
/// then each pair gives one, and an odd one makes the quote a character of the argument. Between
/// double quotes a blank belongs to the argument, and two double quotes give one.
pub open spec fn read_argument(line: Seq<char>, quoted: bool, pending: nat) -> (
    Seq<char>,
    Seq<char>,
)
    decreases line.len(),
{
    if line.len() == 0 {
        (backslashes(pending), Seq::empty())
    } else if line.first() == '\\' {
        read_argument(line.drop_first(), quoted, pending + 1)
    } else if line.first() == '"' && pending % 2 == 1 {
        let (rest, left) = read_argument(line.drop_first(), quoted, 0);
        (backslashes(pending / 2) + seq!['"'] + rest, left)
    } else if line.first() == '"' && quoted && line.len() > 1 && line[1] == '"' {
        let (rest, left) = read_argument(line.skip(2), quoted, 0);
        (backslashes(pending / 2) + seq!['"'] + rest, left)
    } else if line.first() == '"' {
        let (rest, left) = read_argument(line.drop_first(), !quoted, 0);
        (backslashes(pending / 2) + rest, left)
    } else if !quoted && is_blank(line.first()) {
        (backslashes(pending), line)
    } else {
        let (rest, left) = read_argument(line.drop_first(), quoted, 0);
        (backslashes(pending) + seq![line.first()] + rest, left)
    }
}

/// What is left behind an argument is no longer than the line, and shorter where the line begins
/// with a character that is no blank.
pub proof fn lemma_read_argument_length(line: Seq<char>, quoted: bool, pending: nat)
    ensures
        read_argument(line, quoted, pending).1.len() <= line.len(),
        line.len() > 0 && !is_blank(line.first()) ==> read_argument(line, quoted, pending).1.len()
            < line.len(),
    decreases line.len(),
{
    if line.len() > 0 {
        lemma_read_argument_length(line.drop_first(), quoted, pending + 1);
        lemma_read_argument_length(line.drop_first(), quoted, 0);
        lemma_read_argument_length(line.drop_first(), !quoted, 0);
        if line.len() > 1 {
            lemma_read_argument_length(line.skip(2), quoted, 0);
        }
    }
}

/// The arguments that a Windows program reads from a command line that holds arguments only.
pub open spec fn read_arguments(line: Seq<char>) -> Seq<Seq<char>>
    decreases line.len(),
{
    if line.len() == 0 {
        Seq::empty()
    } else if is_blank(line.first()) {
        read_arguments(line.drop_first())
    } else {
        proof {
            lemma_read_argument_length(line, false, 0);
        }
        let (argument, left) = read_argument(line, false, 0);
        seq![argument] + read_arguments(left)
    }
}

spec fn ends_argument(left: Seq<char>) -> bool {
    left.len() == 0 || left.first() == ' '
}

proof fn lemma_read_plain(argument: Seq<char>, pending: nat, left: Seq<char>)
    requires
        forall|i: int| 0 <= i < argument.len() ==> !is_blank(#[trigger] argument[i]) && argument[i] != '"',
        ends_argument(left),
    ensures
        read_argument(argument + left, false, pending) == (backslashes(pending) + argument, left),
    decreases argument.len(),
{
    if argument.len() == 0 {
        assert(argument + left =~= left);
        assert(backslashes(pending) + argument =~= backslashes(pending));
    } else {
        let line = argument + left;
        assert(line.drop_first() =~= argument.drop_first() + left);
        assert(line.first() == argument[0]);
        if argument[0] == '\\' {
            lemma_read_plain(argument.drop_first(), pending + 1, left);
            assert(backslashes(pending + 1) + argument.drop_first() =~= backslashes(pending)
                + argument);
        } else {
            lemma_read_plain(argument.drop_first(), 0, left);
            assert(backslashes(pending) + seq![argument[0]] + (backslashes(0)
                + argument.drop_first()) =~= backslashes(pending) + argument);
        }
    }
}

proof fn lemma_read_backslashes(count: nat, line: Seq<char>, quoted: bool, pending: nat)
    ensures
        read_argument(backslashes(count) + line, quoted, pending) == read_argument(
            line,
            quoted,
            pending + count,
        ),
    decreases count,
{
    if count == 0 {
        assert(backslashes(count) + line =~= line);
    } else {
        let whole = backslashes(count) + line;
        assert(whole.first() == '\\');
        assert(whole.drop_first() =~= backslashes((count - 1) as nat) + line);
        lemma_read_backslashes((count - 1) as nat, line, quoted, pending + 1);
    }
}

proof fn lemma_read_escaped(argument: Seq<char>, pending: nat, left: Seq<char>)
    requires
        ends_argument(left),
    ensures
        read_argument(escaped(argument, pending) + seq!['"'] + left, true, 0) == (
            backslashes(pending) + argument,
            left,
        ),
    decreases argument.len(),
{
    let line = escaped(argument, pending) + seq!['"'] + left;
    if argument.len() == 0 {
        let tail = seq!['"'] + left;
        assert(line =~= backslashes(2 * pending) + tail);
        lemma_read_backslashes(2 * pending, tail, true, 0);
        assert(tail.drop_first() =~= left);
        assert(tail.len() > 1 ==> tail[1] == left[0]);
        assert(read_argument(left, false, 0) == (backslashes(0), left));
        assert((2 * pending) / 2 == pending);
        assert(backslashes(pending) + backslashes(0) =~= backslashes(pending) + argument);
    } else {
        let rest = argument.drop_first();
        if argument[0] == '\\' {
            lemma_read_escaped(rest, pending + 1, left);
            assert(backslashes(pending + 1) + rest =~= backslashes(pending) + argument);
        } else if argument[0] == '"' {
            lemma_read_escaped(rest, 0, left);
            let behind = escaped(rest, 0) + seq!['"'] + left;
            let tail = seq!['"'] + behind;
            assert(line =~= backslashes(2 * pending + 1) + tail);
            lemma_read_backslashes(2 * pending + 1, tail, true, 0);
            assert(tail.drop_first() =~= behind);
            assert((2 * pending + 1) / 2 == pending);
            assert((2 * pending + 1) % 2 == 1);
            assert(backslashes(pending) + seq!['"'] + (backslashes(0) + rest) =~= backslashes(
                pending,
            ) + argument);
        } else {
            lemma_read_escaped(rest, 0, left);
            let behind = escaped(rest, 0) + seq!['"'] + left;
            let tail = seq![argument[0]] + behind;
            assert(line =~= backslashes(pending) + tail);
            lemma_read_backslashes(pending, tail, true, 0);
            assert(tail.drop_first() =~= behind);
            assert(backslashes(pending) + seq![argument[0]] + (backslashes(0) + rest)
                =~= backslashes(pending) + argument);
        }
    }
}

proof fn lemma_read_quoted(argument: Seq<char>, left: Seq<char>)
    requires
        ends_argument(left),
    ensures
        quoted_argument(argument).len() > 0,
        !is_blank(quoted_argument(argument).first()),
        read_argument(quoted_argument(argument) + left, false, 0) == (argument, left),
{
    let line = quoted_argument(argument) + left;
    if is_plain(argument) {
        lemma_read_plain(argument, 0, left);
        assert(backslashes(0) + argument =~= argument);
    } else {
        lemma_read_escaped(argument, 0, left);
        assert(line.first() == '"');
        assert(line.drop_first() =~= escaped(argument, 0) + seq!['"'] + left);
        assert(backslashes(0) + argument =~= argument);
        assert(backslashes(0) + (backslashes(0) + argument) =~= argument);
    }
}

/// A Windows program reads from a quoted argument the argument itself.
pub proof fn quoting_keeps_the_argument(argument: Seq<char>)
    ensures
        read_arguments(quoted_argument(argument)) == seq![argument],
{
    let line = quoted_argument(argument);
    lemma_read_quoted(argument, Seq::empty());
    assert(line + Seq::<char>::empty() =~= line);
    assert(read_arguments(Seq::<char>::empty()) =~= Seq::<Seq<char>>::empty());
    assert(read_arguments(line) =~= seq![argument]);
}

/// A Windows program reads from a command line exactly the arguments that it was built from,
/// whatever characters they hold.
pub proof fn command_line_keeps_the_arguments(arguments: Seq<Seq<char>>)
    ensures
        read_arguments(command_line_of(arguments)) == arguments,
    decreases arguments.len(),
{
    let quoted = arguments.map_values(|argument: Seq<char>| quoted_argument(argument));
    let line = command_line_of(arguments);
    if arguments.len() == 0 {
        assert(read_arguments(line) =~= arguments);
    } else if arguments.len() == 1 {
        quoting_keeps_the_argument(arguments[0]);
        assert(seq![arguments[0]] =~= arguments);
    } else {
        let others = arguments.drop_first();
        assert(quoted.drop_first() =~= others.map_values(
            |argument: Seq<char>| quoted_argument(argument),
        ));
        let left = seq![' '] + command_line_of(others);
        lemma_read_quoted(arguments[0], left);
        assert(line =~= quoted_argument(arguments[0]) + left);
        assert(line.first() == quoted_argument(arguments[0]).first());
        assert(left.drop_first() =~= command_line_of(others));
        assert(read_arguments(left) == read_arguments(command_line_of(others)));
        command_line_keeps_the_arguments(others);
        assert(seq![arguments[0]] + others =~= arguments);
    }
}

/// The arguments with which the isolated window is launched.
pub open spec fn launch_arguments(profile: Seq<char>) -> Seq<Seq<char>> {
    seq![
        "--user-data-dir="@ + profile,
        "--remote-debugging-address=127.0.0.1"@,
        "--remote-debugging-port=0"@,
        "--disable-background-timer-throttling"@,
        "--no-first-run"@,
    ]
}

/// The arguments with which the isolated window is launched on its own profile directory.
pub fn isolated_launch_arguments(profile: &str) -> (result: Vec<String>)
    ensures
        string_views(result@) == launch_arguments(profile@),
{
    let mut directory: Vec<char> = chars_of("--user-data-dir=");
    push_text(&mut directory, profile);
    let mut result: Vec<String> = Vec::new();
    result.push(text_of(directory.as_slice()));
    result.push("--remote-debugging-address=127.0.0.1".to_owned());
    result.push("--remote-debugging-port=0".to_owned());
    result.push("--disable-background-timer-throttling".to_owned());
    result.push("--no-first-run".to_owned());
    assert(string_views(result@) =~= launch_arguments(profile@));
    result
}

/// Whether a text holds no double quote and does not end with a backslash.
pub open spec fn is_run(text: Seq<char>) -> bool {
    &&& forall|i: int| 0 <= i < text.len() ==> #[trigger] text[i] != '"'
    &&& text.len() > 0 ==> text.last() != '\\'
}

proof fn lemma_escaped_run(run: Seq<char>, rest: Seq<char>, pending: nat)
    requires
        is_run(run),
        run.len() == 0 ==> pending == 0,
    ensures
        escaped(run + rest, pending) == backslashes(pending) + run + escaped(rest, 0),
    decreases run.len(),
{
    if run.len() == 0 {
        assert(run + rest =~= rest);
        assert(backslashes(pending) + run + escaped(rest, 0) =~= escaped(rest, 0));
    } else {
        let tail = run.drop_first();
        assert((run + rest).drop_first() =~= tail + rest);
        assert(run[0] != '"');
        assert forall|i: int| 0 <= i < tail.len() implies #[trigger] tail[i] != '"' by {
            assert(tail[i] == run[i + 1]);
        }
        if run[0] == '\\' {
            assert(tail.len() > 0);
            lemma_escaped_run(tail, rest, pending + 1);
            assert(backslashes(pending + 1) + tail + escaped(rest, 0) =~= backslashes(pending) + run
                + escaped(rest, 0));
        } else {
            lemma_escaped_run(tail, rest, 0);
            assert(escaped(run + rest, pending) =~= backslashes(pending) + run + escaped(rest, 0));
        }
    }
}

proof fn lemma_escaped_backslashes(count: nat, rest: Seq<char>, pending: nat)
    ensures
        escaped(backslashes(count) + rest, pending) == escaped(rest, pending + count),
    decreases count,
{
    if count == 0 {
        assert(backslashes(count) + rest =~= rest);
    } else {
        let whole = backslashes(count) + rest;
        assert(whole.first() == '\\');
        assert(whole.drop_first() =~= backslashes((count - 1) as nat) + rest);
        lemma_escaped_backslashes((count - 1) as nat, rest, pending + 1);
    }
}

/// An argument without blanks and double quotes stands as it is.
pub proof fn plain_argument_stands_as_it_is(argument: &str, quoted: String)
    requires
        call_ensures(quote_windows_argument, (argument,), quoted),
        argument@.len() > 0,
        forall|i: int|
            0 <= i < argument@.len() ==> #[trigger] argument@[i] != ' ' && argument@[i] != '\t'
                && argument@[i] != '"',
    ensures
        quoted@ == argument@,
{
}

/// An argument with a blank in it, or an empty one, stands between double quotes; backslashes in it
/// stay as they are, but those at its end are doubled.
pub proof fn argument_with_blanks_is_quoted(
    run: Seq<char>,
    count: nat,
    at: int,
    argument: &str,
    quoted: String,
)
    requires
        call_ensures(quote_windows_argument, (argument,), quoted),
        is_run(run),
        argument@ == run + backslashes(count),
        argument@.len() == 0 || (0 <= at < argument@.len() && (argument@[at] == ' ' || argument@[at]
            == '\t')),
    ensures
        quoted@ == "\""@ + run + backslashes(2 * count) + "\""@,
{
    reveal_strlit("\"");
    assert("\""@ =~= seq!['"']);
    let none = Seq::<char>::empty();
    if argument@.len() > 0 {
        assert(is_blank(argument@[at]));
    }
    lemma_escaped_run(run, backslashes(count), 0);
    lemma_escaped_backslashes(count, none, 0);
    assert(backslashes(count) + none =~= backslashes(count));
    assert(quoted@ =~= "\""@ + run + backslashes(2 * count) + "\""@);
}

/// A double quote in an argument gets a backslash of its own, and backslashes right before it are
/// doubled.
pub proof fn double_quote_in_an_argument_is_escaped(
    run: Seq<char>,
    count: nat,
    rest: Seq<char>,
    argument: &str,
    quoted: String,
)
    requires
        call_ensures(quote_windows_argument, (argument,), quoted),
        is_run(run),
        is_run(rest),
        argument@ == run + (backslashes(count) + ("\""@ + rest)),
    ensures
        quoted@ == "\""@ + run + backslashes(2 * count + 1) + "\""@ + rest + "\""@,
{
    reveal_strlit("\"");
    assert("\""@ =~= seq!['"']);
    let none = Seq::<char>::empty();
    let tail = "\""@ + rest;
    assert(argument@[(run.len() + count) as int] == '"');
    lemma_escaped_run(run, backslashes(count) + tail, 0);
    lemma_escaped_backslashes(count, tail, 0);
    assert(tail.drop_first() =~= rest);
    lemma_escaped_run(rest, none, 0);
    assert(rest + none =~= rest);
    assert(escaped(none, 0) =~= none);
    assert(quoted@ =~= "\""@ + run + backslashes(2 * count + 1) + "\""@ + rest + "\""@);
}

/// A Windows program reads from the command line exactly the arguments that it was made of, and the
/// line is made of these as they are quoted one by one, with a space between each two.
pub proof fn made_command_line_carries_its_arguments(
    arguments: &[String],
    texts: Seq<&str>,
    quotes: Seq<String>,
    line: String,
)
    requires
        call_ensures(windows_command_line, (arguments,), line),
        texts.len() == arguments@.len(),
        quotes.len() == arguments@.len(),
        forall|i: int|
            0 <= i < texts.len() ==> (#[trigger] texts[i])@ == arguments@[i]@ && call_ensures(
                quote_windows_argument,
                (texts[i],),
                quotes[i],
            ),
    ensures
        read_arguments(line@) == string_views(arguments@),
        line@ == joined(string_views(quotes), " "@),
{
    reveal_strlit(" ");
    assert(" "@ =~= seq![' ']);
    command_line_keeps_the_arguments(string_views(arguments@));
    let quoted = string_views(arguments@).map_values(
        |argument: Seq<char>| quoted_argument(argument),
    );
    assert forall|i: int| 0 <= i < quotes.len() implies string_views(quotes)[i]
        == #[trigger] quoted[i] by {
        assert(texts[i]@ == arguments@[i]@);
    }
    assert(string_views(quotes) =~= quoted);
}

/// The isolated window is launched on its own profile, with a channel on the loopback address at a
/// port of its choice, and without what would hold up its timers or greet its user.
pub proof fn window_is_launched_on_its_own_profile(profile: &str, arguments: Vec<String>)
    requires
        call_ensures(isolated_launch_arguments, (profile,), arguments),
    ensures
        arguments@.len() == 5,
        arguments@[0]@ == "--user-data-dir="@ + profile@,
        arguments@[1]@ == "--remote-debugging-address=127.0.0.1"@,
        arguments@[2]@ == "--remote-debugging-port=0"@,
        arguments@[3]@ == "--disable-background-timer-throttling"@,
        arguments@[4]@ == "--no-first-run"@,
{
    let all = string_views(arguments@);
    assert(all.len() == 5);
    assert(all[0] == arguments@[0]@);
    assert(all[1] == arguments@[1]@);
    assert(all[2] == arguments@[2]@);
    assert(all[3] == arguments@[3]@);
    assert(all[4] == arguments@[4]@);
}

} // verus!
