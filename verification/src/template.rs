//! Text templates with named placeholders.
//!
//! `{name}` stands for the value bound to `name`; `{{` and `}}` stand for one brace.
use vstd::prelude::*;

use crate::text::{
    chars_of, first_occurrence, lemma_first_occurrence, lemma_first_occurrence_bounds,
    lemma_no_occurrence, lemma_some_occurrence, occurs_at, occurs_first_at, push_text, same_chars,
    slice_chars, text_of,
};

verus! {

/// A value under the name by which a template refers to it.
#[derive(Debug)]
pub struct Binding {
    pub name: String,
    pub value: String,
}

/// The names and values of some bindings.
pub open spec fn binding_views(bindings: Seq<Binding>) -> Seq<(Seq<char>, Seq<char>)> {
    bindings.map_values(|binding: Binding| (binding.name@, binding.value@))
}

/// The value bound to a name: that of the first binding with the name.
pub open spec fn bound_value(bindings: Seq<(Seq<char>, Seq<char>)>, name: Seq<char>) -> Option<
    Seq<char>,
>
    decreases bindings.len(),
{
    if bindings.len() == 0 {
        None
    } else if bindings.first().0 == name {
        Some(bindings.first().1)
    } else {
        bound_value(bindings.drop_first(), name)
    }
}

/// A template with its placeholders replaced by the values bound to them and its doubled braces
/// made single. A value is put in as it is. A brace that is neither doubled nor part of a
/// placeholder with a bound name stands for itself.
pub open spec fn rendered(
    template: Seq<char>,
    bindings: Seq<(Seq<char>, Seq<char>)>,
) -> Seq<char>
    decreases template.len(),
{
    if template.len() == 0 {
        Seq::empty()
    } else if template.len() > 1 && template[0] == '{' && template[1] == '{' {
        seq!['{'] + rendered(template.skip(2), bindings)
    } else if template.len() > 1 && template[0] == '}' && template[1] == '}' {
        seq!['}'] + rendered(template.skip(2), bindings)
    } else {
        match placeholder(template, bindings) {
            Some((value, size)) => if 0 < size <= template.len() {
                value + rendered(template.skip(size), bindings)
            } else {
                Seq::empty()
            },
            None => seq![template[0]] + rendered(template.drop_first(), bindings),
        }
    }
}

/// The value of the placeholder at the start of a template, and the placeholder's size.
pub open spec fn placeholder(
    template: Seq<char>,
    bindings: Seq<(Seq<char>, Seq<char>)>,
) -> Option<(Seq<char>, int)> {
    if template.len() > 0 && template[0] == '{' {
        match first_occurrence(template, seq!['}']) {
            Some(end) => match bound_value(bindings, template.subrange(1, end)) {
                Some(value) => Some((value, end + 1)),
                None => None,
            },
            None => None,
        }
    } else {
        None
    }
}

fn lookup(bindings: &[Binding], name: &[char]) -> (result: Option<usize>)
    ensures
        match result {
            Some(at) => at < bindings@.len() && bound_value(binding_views(bindings@), name@)
                == Some(bindings@[at as int].value@),
            None => bound_value(binding_views(bindings@), name@) is None,
        },
{
    let ghost all = binding_views(bindings@);
    let mut i: usize = 0;
    assert(all.skip(0) =~= all);
    while i < bindings.len()
        invariant
            i <= bindings@.len(),
            all == binding_views(bindings@),
            bound_value(all, name@) == bound_value(all.skip(i as int), name@),
        decreases bindings@.len() - i,
    {
        if same_chars(chars_of(bindings[i].name.as_str()).as_slice(), name) {
            return Some(i);
        }
        assert(all.skip(i as int).drop_first() =~= all.skip(i + 1));
        i += 1;
    }
    None
}

fn find_brace(chars: &[char], start: usize) -> (result: Option<usize>)
    requires
        start <= chars@.len(),
    ensures
        match result {
            Some(end) => start <= end < chars@.len() && first_occurrence(
                chars@.skip(start as int),
                seq!['}'],
            ) == Some(end - start),
            None => first_occurrence(chars@.skip(start as int), seq!['}']) is None,
        },
{
    let ghost rest = chars@.skip(start as int);
    let mut end: usize = start;
    while end < chars.len() && chars[end] != '}'
        invariant
            start <= end <= chars@.len(),
            rest == chars@.skip(start as int),
            forall|i: int| start <= i < end ==> chars@[i] != '}',
        decreases chars@.len() - end,
    {
        end += 1;
    }
    proof {
        assert forall|at: int| 0 <= at < end - start implies !occurs_at(rest, seq!['}'], at) by {
            if occurs_at(rest, seq!['}'], at) {
                assert(rest.subrange(at, at + 1)[0] == rest[at]);
            }
        }
    }
    if end < chars.len() {
        proof {
            assert(rest.subrange(end - start, end - start + 1) =~= seq!['}']);
            lemma_first_occurrence(rest, seq!['}'], end - start);
        }
        Some(end)
    } else {
        proof {
            lemma_no_occurrence(rest, seq!['}']);
        }
        None
    }
}

/// Replaces the placeholders of a template.
pub fn render(template: &str, bindings: &[Binding]) -> (result: String)
    ensures
        result@ == rendered(template@, binding_views(bindings@)),
{
    let chars = chars_of(template);
    let ghost values = binding_views(bindings@);
    let mut output: Vec<char> = Vec::new();
    let mut at: usize = 0;
    proof {
        assert(chars@.skip(0) =~= chars@);
        assert(output@ + rendered(chars@, values) =~= rendered(chars@, values));
    }
    while at < chars.len()
        invariant
            at <= chars@.len(),
            values == binding_views(bindings@),
            output@ + rendered(chars@.skip(at as int), values) == rendered(chars@, values),
        decreases chars@.len() - at,
    {
        let ghost rest = chars@.skip(at as int);
        let ghost before = output@;
        let brace = chars[at];
        if chars.len() - at > 1 && (brace == '{' || brace == '}') && chars[at + 1] == brace {
            output.push(brace);
            proof {
                assert(rest.skip(2) =~= chars@.skip(at + 2));
                assert(output@ + rendered(chars@.skip(at + 2), values) =~= before + rendered(
                    rest,
                    values,
                ));
            }
            at += 2;
        } else {
            let mut found: Option<(usize, usize)> = None;
            if brace == '{' {
                if let Some(end) = find_brace(chars.as_slice(), at) {
                    proof {
                        lemma_first_occurrence_bounds(rest, seq!['}']);
                        assert(rest.subrange(end - at, end - at + 1)[0] == rest[end - at]);
                    }
                    let name = slice_chars(chars.as_slice(), at + 1, end);
                    assert(name@ =~= rest.subrange(1, end - at));
                    if let Some(index) = lookup(bindings, name.as_slice()) {
                        found = Some((index, end + 1));
                    }
                }
            }
            match found {
                Some((index, next)) => {
                    push_text(&mut output, bindings[index].value.as_str());
                    proof {
                        assert(rest.skip(next - at) =~= chars@.skip(next as int));
                        assert(output@ + rendered(chars@.skip(next as int), values) =~= before
                            + rendered(rest, values));
                    }
                    at = next;
                },
                None => {
                    output.push(brace);
                    proof {
                        assert(rest.drop_first() =~= chars@.skip(at + 1));
                        assert(output@ + rendered(chars@.skip(at + 1), values) =~= before
                            + rendered(rest, values));
                    }
                    at += 1;
                },
            }
        }
    }
    proof {
        assert(chars@.skip(at as int) =~= Seq::<char>::empty());
        assert(output@ =~= rendered(chars@, values));
    }
    text_of(output.as_slice())
}

/// A text with every brace doubled.
pub open spec fn braces_doubled(text: Seq<char>) -> Seq<char>
    decreases text.len(),
{
    if text.len() == 0 {
        Seq::empty()
    } else if text[0] == '{' || text[0] == '}' {
        seq![text[0], text[0]] + braces_doubled(text.drop_first())
    } else {
        seq![text[0]] + braces_doubled(text.drop_first())
    }
}

/// A text with every brace doubled renders to the text, whatever follows it in the template.
pub proof fn doubled_text_renders_to_itself(
    text: Seq<char>,
    rest: Seq<char>,
    bindings: Seq<(Seq<char>, Seq<char>)>,
)
    ensures
        rendered(braces_doubled(text) + rest, bindings) == text + rendered(rest, bindings),
    decreases text.len(),
{
    let template = braces_doubled(text) + rest;
    if text.len() == 0 {
        assert(template =~= rest);
        assert(text + rendered(rest, bindings) =~= rendered(rest, bindings));
    } else {
        doubled_text_renders_to_itself(text.drop_first(), rest, bindings);
        if text[0] == '{' || text[0] == '}' {
            assert(template.skip(2) =~= braces_doubled(text.drop_first()) + rest);
        } else {
            assert(template.drop_first() =~= braces_doubled(text.drop_first()) + rest);
        }
        assert(seq![text[0]] + (text.drop_first() + rendered(rest, bindings)) =~= text + rendered(
            rest,
            bindings,
        ));
    }
}

/// A placeholder renders to the value bound to its name, braces and all, whatever follows it in
/// the template.
pub proof fn placeholder_renders_to_its_value(
    name: Seq<char>,
    rest: Seq<char>,
    bindings: Seq<(Seq<char>, Seq<char>)>,
)
    requires
        name.len() > 0,
        name[0] != '{',
        !name.contains('}'),
        bound_value(bindings, name) is Some,
    ensures
        rendered(seq!['{'] + name + seq!['}'] + rest, bindings) == bound_value(bindings, name)->0
            + rendered(rest, bindings),
{
    let template = seq!['{'] + name + seq!['}'] + rest;
    let end = name.len() as int + 1;
    assert(template.subrange(1, end) =~= name);
    lemma_placeholder(template, name, bindings);
    assert(template[1] == name[0]);
    assert(template.skip(end + 1) =~= rest);
}

proof fn lemma_first_brace(template: Seq<char>, name: Seq<char>)
    requires
        template.len() >= name.len() + 2,
        template[0] == '{',
        template[name.len() as int + 1] == '}',
        template.subrange(1, name.len() as int + 1) == name,
        !name.contains('}'),
    ensures
        first_occurrence(template, seq!['}']) == Some(name.len() as int + 1),
{
    let end = name.len() as int + 1;
    assert(template.subrange(end, end + 1) =~= seq!['}']);
    assert forall|at: int| 0 <= at < end implies !occurs_at(template, seq!['}'], at) by {
        if occurs_at(template, seq!['}'], at) {
            assert(template.subrange(at, at + 1)[0] == template[at]);
            if at > 0 {
                assert(name[at - 1] == template[at]);
                assert(name.contains(name[at - 1]));
            }
        }
    }
    assert(occurs_first_at(template, seq!['}'], end));
    lemma_first_occurrence(template, seq!['}'], end);
}

proof fn lemma_placeholder(
    template: Seq<char>,
    name: Seq<char>,
    bindings: Seq<(Seq<char>, Seq<char>)>,
)
    requires
        template.len() >= name.len() + 2,
        template[0] == '{',
        template[name.len() as int + 1] == '}',
        template.subrange(1, name.len() as int + 1) == name,
        !name.contains('}'),
        bound_value(bindings, name) is Some,
    ensures
        placeholder(template, bindings) == Some(
            (bound_value(bindings, name)->0, name.len() as int + 1 + 1),
        ),
{
    lemma_first_brace(template, name);
}

/// A text without braces renders to itself, whatever follows it in the template.
pub proof fn plain_text_renders_to_itself(
    text: Seq<char>,
    rest: Seq<char>,
    bindings: Seq<(Seq<char>, Seq<char>)>,
)
    requires
        !text.contains('{'),
        !text.contains('}'),
    ensures
        rendered(text + rest, bindings) == text + rendered(rest, bindings),
    decreases text.len(),
{
    let template = text + rest;
    if text.len() == 0 {
        assert(template =~= rest);
        assert(text + rendered(rest, bindings) =~= rendered(rest, bindings));
    } else {
        let behind = text.drop_first();
        assert(text.contains(text[0]));
        assert forall|character: char| !text.contains(character) implies !behind.contains(
            character,
        ) by {
            if behind.contains(character) {
                let i = choose|i: int| 0 <= i < behind.len() && behind[i] == character;
                assert(text[i + 1] == character);
            }
        }
        plain_text_renders_to_itself(behind, rest, bindings);
        assert(template.drop_first() =~= behind + rest);
        assert(seq![text[0]] + (behind + rendered(rest, bindings)) =~= text + rendered(
            rest,
            bindings,
        ));
    }
}

/// A template that is cut behind a character which is no brace and stands in no bound name renders
/// to what its two parts render to: what is in front does not change what a placeholder stands for.
pub proof fn parts_render_on_their_own(
    front: Seq<char>,
    rest: Seq<char>,
    bindings: Seq<(Seq<char>, Seq<char>)>,
)
    requires
        front.len() > 0,
        front.last() != '{',
        front.last() != '}',
        forall|i: int|
            0 <= i < bindings.len() ==> !(#[trigger] bindings[i]).0.contains(front.last()),
    ensures
        rendered(front + rest, bindings) == rendered(front, bindings) + rendered(rest, bindings),
    decreases front.len(),
{
    let template = front + rest;
    let last = front.last();
    if front.len() == 1 {
        assert(front =~= seq![last]);
        assert(template.drop_first() =~= rest);
        assert(front.drop_first() =~= Seq::empty());
        assert(rendered(front.drop_first(), bindings) =~= Seq::empty());
        assert(rendered(front, bindings) =~= front);
    } else if (front[0] == '{' && front[1] == '{') || (front[0] == '}' && front[1] == '}') {
        assert(front.len() > 2);
        let behind = front.skip(2);
        assert(behind.last() == last);
        parts_render_on_their_own(behind, rest, bindings);
        assert(template.skip(2) =~= behind + rest);
        assert(rendered(template, bindings) =~= rendered(front, bindings) + rendered(
            rest,
            bindings,
        ));
    } else {
        lemma_same_placeholder(front, rest, bindings);
        match placeholder(front, bindings) {
            Some((value, size)) => {
                let behind = front.skip(size);
                assert(behind.last() == last);
                parts_render_on_their_own(behind, rest, bindings);
                assert(template.skip(size) =~= behind + rest);
            },
            None => {
                let behind = front.drop_first();
                assert(behind.last() == last);
                parts_render_on_their_own(behind, rest, bindings);
                assert(template.drop_first() =~= behind + rest);
            },
        }
        assert(rendered(template, bindings) =~= rendered(front, bindings) + rendered(
            rest,
            bindings,
        ));
    }
}

proof fn lemma_bound_name(bindings: Seq<(Seq<char>, Seq<char>)>, name: Seq<char>)
    requires
        bound_value(bindings, name) is Some,
    ensures
        exists|i: int| 0 <= i < bindings.len() && (#[trigger] bindings[i]).0 == name,
    decreases bindings.len(),
{
    if bindings.first().0 == name {
        assert(bindings[0].0 == name);
    } else {
        lemma_bound_name(bindings.drop_first(), name);
        let i = choose|i: int|
            0 <= i < bindings.drop_first().len() && (#[trigger] bindings.drop_first()[i]).0 == name;
        assert(bindings[i + 1].0 == name);
    }
}

proof fn lemma_same_placeholder(
    front: Seq<char>,
    rest: Seq<char>,
    bindings: Seq<(Seq<char>, Seq<char>)>,
)
    requires
        front.len() > 1,
        front.last() != '{',
        front.last() != '}',
        forall|i: int|
            0 <= i < bindings.len() ==> !(#[trigger] bindings[i]).0.contains(front.last()),
    ensures
        placeholder(front + rest, bindings) == placeholder(front, bindings),
        placeholder(front, bindings) matches Some((_, size)) ==> 0 < size < front.len(),
{
    let whole = front + rest;
    let brace = seq!['}'];
    lemma_first_occurrence_bounds(whole, brace);
    lemma_first_occurrence_bounds(front, brace);
    if let Some(end) = first_occurrence(front, brace) {
        assert(front.subrange(end, end + 1)[0] == front[end]);
        assert(end < front.len() - 1);
        assert(whole.subrange(end, end + 1) =~= brace);
        assert forall|at: int| 0 <= at < end implies !occurs_at(whole, brace, at) by {
            if occurs_at(whole, brace, at) {
                assert(front.subrange(at, at + 1) =~= whole.subrange(at, at + 1));
                assert(occurs_at(front, brace, at));
            }
        }
        lemma_first_occurrence(whole, brace, end);
        if end > 0 {
            assert(whole.subrange(1, end) =~= front.subrange(1, end));
        }
    } else if front[0] == '{' {
        if let Some(end) = first_occurrence(whole, brace) {
            if end < front.len() {
                assert(front.subrange(end, end + 1) =~= whole.subrange(end, end + 1));
                lemma_some_occurrence(front, brace, end);
            }
            let name = whole.subrange(1, end);
            assert(name[front.len() - 2] == front.last());
            assert(name.contains(front.last()));
            if bound_value(bindings, name) is Some {
                lemma_bound_name(bindings, name);
            }
        }
    }
}

/// Where no two bindings have the same name, each name is bound to its own value.
pub proof fn distinct_names_keep_their_values(bindings: Seq<(Seq<char>, Seq<char>)>, index: int)
    requires
        0 <= index < bindings.len(),
        forall|i: int|
            0 <= i < bindings.len() && i != index ==> (#[trigger] bindings[i]).0
                != bindings[index].0,
    ensures
        bound_value(bindings, bindings[index].0) == Some(bindings[index].1),
    decreases bindings.len(),
{
    if index > 0 {
        assert(bindings[0].0 != bindings[index].0);
        let rest = bindings.drop_first();
        assert(rest[index - 1] == bindings[index]);
        assert forall|i: int| 0 <= i < rest.len() && i != index - 1 implies (#[trigger] rest[i]).0
            != rest[index - 1].0 by {
            assert(rest[i] == bindings[i + 1]);
        }
        distinct_names_keep_their_values(rest, index - 1);
    }
}

/// A template renders to the text around its placeholders, with the value that is bound to each name
/// in its place, and with the braces of that value as they are.
pub proof fn template_renders_to_its_values(
    before: Seq<char>,
    name: Seq<char>,
    behind: Seq<char>,
    template: &str,
    bindings: &[Binding],
    at: int,
    text: String,
)
    requires
        call_ensures(render, (template, bindings), text),
        !before.contains('{'),
        !before.contains('}'),
        !behind.contains('{'),
        !behind.contains('}'),
        name.len() > 0,
        !name.contains('{'),
        !name.contains('}'),
        template@ == before + (seq!['{'] + name + seq!['}'] + behind),
        0 <= at < bindings@.len(),
        bindings@[at].name@ == name,
        forall|i: int|
            0 <= i < bindings@.len() && i != at ==> (#[trigger] bindings@[i]).name@ != name,
    ensures
        text@ == before + bindings@[at].value@ + behind,
{
    let values = binding_views(bindings@);
    let none = Seq::<char>::empty();
    assert(name.contains(name[0]));
    assert(values[at] == (name, bindings@[at].value@));
    assert forall|i: int| 0 <= i < values.len() && i != at implies (#[trigger] values[i]).0
        != values[at].0 by {
        assert(values[i].0 == bindings@[i].name@);
    }
    distinct_names_keep_their_values(values, at);
    plain_text_renders_to_itself(before, seq!['{'] + name + seq!['}'] + behind, values);
    placeholder_renders_to_its_value(name, behind, values);
    plain_text_renders_to_itself(behind, none, values);
    assert(behind + none =~= behind);
    assert(rendered(none, values) =~= none);
    assert(text@ =~= before + bindings@[at].value@ + behind);
}

/// A text with its braces doubled renders to itself.
pub proof fn doubled_braces_render_to_single_ones(
    text: Seq<char>,
    template: &str,
    bindings: &[Binding],
    result: String,
)
    requires
        call_ensures(render, (template, bindings), result),
        template@ == braces_doubled(text),
    ensures
        result@ == text,
{
    let none = Seq::<char>::empty();
    let values = binding_views(bindings@);
    doubled_text_renders_to_itself(text, none, values);
    assert(braces_doubled(text) + none =~= braces_doubled(text));
    assert(rendered(none, values) =~= none);
    assert(text + none =~= text);
}

/// A name in braces to which no value is bound stands for itself, braces and all, and so does a brace
/// that is neither doubled nor part of a name in braces.
pub proof fn unbound_name_stands_for_itself(
    before: Seq<char>,
    name: Seq<char>,
    behind: Seq<char>,
    template: &str,
    bindings: &[Binding],
    text: String,
)
    requires
        call_ensures(render, (template, bindings), text),
        !before.contains('{'),
        !before.contains('}'),
        !behind.contains('{'),
        !behind.contains('}'),
        name.len() > 0,
        !name.contains('{'),
        !name.contains('}'),
        template@ == before + (seq!['{'] + (name + (seq!['}'] + behind))) || template@ == before + (
        seq!['{'] + (name + behind)),
        forall|i: int| 0 <= i < bindings@.len() ==> (#[trigger] bindings@[i]).name@ != name,
    ensures
        text@ == template@,
{
    let values = binding_views(bindings@);
    let none = Seq::<char>::empty();
    let closed = seq!['{'] + (name + (seq!['}'] + behind));
    let open = seq!['{'] + (name + behind);
    assert(name.contains(name[0]));
    plain_text_renders_to_itself(before, closed, values);
    plain_text_renders_to_itself(before, open, values);
    plain_text_renders_to_itself(name, seq!['}'] + behind, values);
    plain_text_renders_to_itself(name, behind, values);
    plain_text_renders_to_itself(behind, none, values);
    assert(behind + none =~= behind);
    assert(rendered(none, values) =~= none);
    assert(rendered(behind, values) =~= behind);
    let end = seq!['}'] + behind;
    assert(rendered(end, values) =~= end) by {
        assert(end.drop_first() =~= behind);
        if behind.len() > 0 {
            assert(behind.contains(behind[0]));
            assert(end[1] == behind[0]);
        }
    }
    assert(rendered(closed, values) =~= closed) by {
        assert(closed.drop_first() =~= name + end);
        assert(closed[1] == name[0]);
        lemma_unbound(values, name, bindings@);
        assert(closed.subrange(1, name.len() as int + 1) =~= name);
        lemma_first_brace(closed, name);
    }
    assert(rendered(open, values) =~= open) by {
        assert(open.drop_first() =~= name + behind);
        assert(open[1] == name[0]);
        assert forall|at: int| !occurs_at(open, seq!['}'], at) by {
            if occurs_at(open, seq!['}'], at) {
                assert(open.subrange(at, at + 1)[0] == open[at]);
                if 1 <= at <= name.len() {
                    assert(name[at - 1] == '}');
                } else if at > name.len() {
                    assert(behind[at - 1 - name.len()] == '}');
                }
            }
        }
        lemma_no_occurrence(open, seq!['}']);
    }
}

proof fn lemma_unbound(
    values: Seq<(Seq<char>, Seq<char>)>,
    name: Seq<char>,
    bindings: Seq<Binding>,
)
    requires
        values == binding_views(bindings),
        forall|i: int| 0 <= i < bindings.len() ==> (#[trigger] bindings[i]).name@ != name,
    ensures
        bound_value(values, name) is None,
    decreases bindings.len(),
{
    if bindings.len() > 0 {
        let rest = bindings.drop_first();
        assert(values[0].0 == bindings[0].name@);
        assert(values.drop_first() =~= binding_views(rest));
        assert forall|i: int| 0 <= i < rest.len() implies (#[trigger] rest[i]).name@ != name by {
            assert(rest[i] == bindings[i + 1]);
        }
        lemma_unbound(values.drop_first(), name, rest);
    }
}

} // verus!
