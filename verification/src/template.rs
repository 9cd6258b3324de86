//! The template grammar: placeholders of the form `{{name}}`, and what
//! substituting arguments for them does to a template.

use vstd::prelude::*;
use crate::json::inline_text;
use crate::json::JsonView;
use crate::text::contains_pattern;
use crate::text::has_char;
use crate::text::inert;
use crate::text::lemma_replaced_clean;
use crate::text::lemma_replaced_past;
use crate::text::lemma_replaced_without;
use crate::text::matches_at;
use crate::text::replaced;

verus! {

broadcast use vstd::string::group_string_axioms;

/// The placeholder of a parameter: its name between `{{` and `}}`.
pub open spec fn placeholder(name: Seq<char>) -> Seq<char> {
    seq!['{', '{'] + name + seq!['}', '}']
}

/// A template after the arguments were substituted, one after the other in
/// their order: each replaces every occurrence of its placeholder in what
/// the arguments before it left. Placeholders of other names stay.
pub open spec fn substituted(template: Seq<char>, args: Seq<(Seq<char>, JsonView)>) -> Seq<char>
    decreases args.len(),
{
    if args.len() == 0 {
        template
    } else {
        replaced(
            substituted(template, args.drop_last()),
            placeholder(args.last().0),
            inline_text(args.last().1),
        )
    }
}

/// Every value can stand in for every placeholder of the arguments without
/// bringing one back: written out, no value holds a brace, and none is a
/// piece of the placeholder of a supplied name (so none is empty).
pub open spec fn plain_values(args: Seq<(Seq<char>, JsonView)>) -> bool {
    forall|i: int, j: int|
        0 <= i < args.len() && 0 <= j < args.len() ==> {
            &&& !has_char(inline_text(#[trigger] args[i].1), '{')
            &&& !has_char(inline_text(args[i].1), '}')
            &&& !contains_pattern(placeholder(#[trigger] args[j].0), inline_text(args[i].1))
        }
}

/// After substitution no placeholder of a supplied name is left, where the
/// values are plain.
proof fn lemma_plain_placeholders_gone(
    template: Seq<char>,
    args: Seq<(Seq<char>, JsonView)>,
    which: int,
)
    requires
        plain_values(args),
        0 <= which < args.len(),
    ensures
        !contains_pattern(substituted(template, args), placeholder(args[which].0)),
    decreases args.len(),
{
    let before = substituted(template, args.drop_last());
    let pattern = placeholder(args.last().0);
    let value = inline_text(args.last().1);
    let probe = placeholder(args[which].0);
    assert(probe[0] == '{');
    assert(probe.last() == '}');
    assert(inert(value, probe)) by {
        assert(args[args.len() - 1].1 == args.last().1);
    }
    if which < args.len() - 1 {
        let rest = args.drop_last();
        assert(plain_values(rest)) by {
            assert forall|i: int, j: int| 0 <= i < rest.len() && 0 <= j < rest.len() implies {
                &&& !has_char(inline_text(#[trigger] rest[i].1), '{')
                &&& !has_char(inline_text(rest[i].1), '}')
                &&& !contains_pattern(placeholder(#[trigger] rest[j].0), inline_text(rest[i].1))
            } by {
                assert(rest[i] == args[i]);
                assert(rest[j] == args[j]);
            }
        }
        assert(rest[which] == args[which]);
        lemma_plain_placeholders_gone(template, rest, which);
    }
    lemma_replaced_clean(before, pattern, value, probe);
}

/// Substitution of a text without placeholders of the supplied names
/// changes nothing.
pub proof fn lemma_substitution_without(text: Seq<char>, args: Seq<(Seq<char>, JsonView)>)
    requires
        forall|k: int|
            0 <= k < args.len() ==> !contains_pattern(text, placeholder(#[trigger] args[k].0)),
    ensures
        substituted(text, args) == text,
    decreases args.len(),
{
    if args.len() > 0 {
        let rest = args.drop_last();
        assert forall|k: int| 0 <= k < rest.len() implies !contains_pattern(
            text,
            placeholder(#[trigger] rest[k].0),
        ) by {
            assert(rest[k] == args[k]);
        }
        lemma_substitution_without(text, rest);
        assert(args.last() == args[args.len() - 1]);
        lemma_replaced_without(text, placeholder(args.last().0), inline_text(args.last().1));
    }
}

/// A part of a template: text, or the placeholder of a name.
pub ghost enum TemplatePart {
    Text(Seq<char>),
    Hole(Seq<char>),
}

/// The text holds no brace.
pub open spec fn braceless(text: Seq<char>) -> bool {
    forall|i: int| 0 <= i < text.len() ==> text[i] != '{' && text[i] != '}'
}

/// What a part is written as: the text itself, or the placeholder.
pub open spec fn part_text(part: TemplatePart) -> Seq<char> {
    match part {
        TemplatePart::Text(text) => text,
        TemplatePart::Hole(name) => placeholder(name),
    }
}

/// The part holds no brace but those of its placeholder.
pub open spec fn plain_part(part: TemplatePart) -> bool {
    match part {
        TemplatePart::Text(text) => braceless(text),
        TemplatePart::Hole(name) => braceless(name),
    }
}

/// Every part is plain.
pub open spec fn plain_parts(parts: Seq<TemplatePart>) -> bool {
    forall|i: int| 0 <= i < parts.len() ==> plain_part(#[trigger] parts[i])
}

/// The template that the parts make up, one after the other.
pub open spec fn template_text(parts: Seq<TemplatePart>) -> Seq<char>
    decreases parts.len(),
{
    if parts.len() == 0 {
        Seq::empty()
    } else {
        part_text(parts[0]) + template_text(parts.drop_first())
    }
}

/// The template is made of text without braces and of placeholders whose
/// names hold no brace.
pub open spec fn follows_grammar(template: Seq<char>) -> bool {
    exists|parts: Seq<TemplatePart>|
        plain_parts(parts) && #[trigger] template_text(parts) == template
}

/// No name and no value of the arguments, written out, holds a brace.
pub open spec fn braceless_arguments(args: Seq<(Seq<char>, JsonView)>) -> bool {
    forall|k: int|
        0 <= k < args.len() ==> braceless((#[trigger] args[k]).0) && braceless(
            inline_text(args[k].1),
        )
}

/// The part after `value` took the place of the placeholder of `name`.
pub open spec fn filled_part(part: TemplatePart, name: Seq<char>, value: Seq<char>)
    -> TemplatePart {
    if part == TemplatePart::Hole(name) {
        TemplatePart::Text(value)
    } else {
        part
    }
}

/// The parts after `value` took the place of every placeholder of `name`.
pub open spec fn filled(parts: Seq<TemplatePart>, name: Seq<char>, value: Seq<char>) -> Seq<
    TemplatePart,
> {
    Seq::new(parts.len(), |i: int| filled_part(parts[i], name, value))
}

/// The parts after each argument in turn took the place of its
/// placeholders.
pub open spec fn filled_with(parts: Seq<TemplatePart>, args: Seq<(Seq<char>, JsonView)>) -> Seq<
    TemplatePart,
>
    decreases args.len(),
{
    if args.len() == 0 {
        parts
    } else {
        filled(filled_with(parts, args.drop_last()), args.last().0, inline_text(args.last().1))
    }
}

/// The placeholder of `name` begins nowhere inside a plain part, whatever
/// follows the part, but at the start of its own placeholder.
proof fn lemma_part_no_match(part: TemplatePart, rest: Seq<char>, name: Seq<char>, i: int)
    requires
        plain_part(part),
        braceless(name),
        0 <= i < part_text(part).len(),
        part != TemplatePart::Hole(name) || i > 0,
    ensures
        !matches_at(part_text(part) + rest, placeholder(name), i),
{
    let own = part_text(part);
    let text = own + rest;
    let pattern = placeholder(name);
    let n = name.len() as int;
    if matches_at(text, pattern, i) {
        let window = text.subrange(i, i + pattern.len());
        assert(window == pattern);
        assert forall|k: int| 0 <= k < pattern.len() implies text[i + k] == pattern[k] by {
            assert(window[k] == text[i + k]);
        }
        assert(pattern[0] == '{');
        assert(pattern[1] == '{');
        assert(pattern[2 + n] == '}');
        match part {
            TemplatePart::Text(plain) => {
                assert(text[i + 0] == pattern[0]);
                assert(text[i] == plain[i]);
            },
            TemplatePart::Hole(other) => {
                let m = other.len() as int;
                assert(own[0] == '{');
                assert(own[1] == '{');
                assert(own[2 + m] == '}');
                assert(own[3 + m] == '}');
                assert forall|k: int| 0 <= k < m implies own[2 + k] == other[k] by {}
                if i == 0 {
                    if n < m {
                        assert(text[2 + n] == pattern[2 + n]);
                        assert(text[2 + n] == own[2 + n]);
                        assert(own[2 + n] == other[n]);
                    } else if n > m {
                        assert(text[2 + m] == pattern[2 + m]);
                        assert(pattern[2 + m] == name[m]);
                        assert(text[2 + m] == own[2 + m]);
                    } else {
                        assert forall|k: int| 0 <= k < n implies name[k] == other[k] by {
                            assert(text[2 + k] == pattern[2 + k]);
                            assert(pattern[2 + k] == name[k]);
                            assert(text[2 + k] == own[2 + k]);
                        }
                        assert(name =~= other);
                    }
                } else if i == 1 {
                    assert(text[i + 1] == pattern[1]);
                    assert(text[2] == own[2]);
                    if m > 0 {
                        assert(own[2] == other[0]);
                    }
                } else if i < 2 + m {
                    assert(text[i + 0] == pattern[0]);
                    assert(text[i] == own[i]);
                    assert(own[2 + (i - 2)] == other[i - 2]);
                } else {
                    assert(text[i + 0] == pattern[0]);
                    assert(text[i] == own[i]);
                }
            },
        }
    }
}

/// Replacing the placeholder of `name` in a template of plain parts fills
/// the placeholders of `name`, and those only.
proof fn lemma_filled(parts: Seq<TemplatePart>, name: Seq<char>, value: Seq<char>)
    requires
        plain_parts(parts),
        braceless(name),
    ensures
        replaced(template_text(parts), placeholder(name), value) == template_text(
            filled(parts, name, value),
        ),
    decreases parts.len(),
{
    let pattern = placeholder(name);
    if parts.len() == 0 {
        assert(filled(parts, name, value) =~= parts);
    } else {
        let first = parts[0];
        let rest = parts.drop_first();
        let tail = template_text(rest);
        let text = template_text(parts);
        assert(plain_parts(rest)) by {
            assert forall|i: int| 0 <= i < rest.len() implies plain_part(#[trigger] rest[i]) by {
                assert(rest[i] == parts[i + 1]);
            }
        }
        lemma_filled(rest, name, value);
        assert(filled(parts, name, value).drop_first() =~= filled(rest, name, value));
        assert(filled(parts, name, value)[0] == filled_part(first, name, value));
        if first == TemplatePart::Hole(name) {
            assert(text.subrange(0, pattern.len() as int) =~= pattern);
            assert(matches_at(text, pattern, 0));
            assert(text.skip(pattern.len() as int) =~= tail);
        } else {
            assert forall|i: int| 0 <= i < part_text(first).len() implies !matches_at(
                part_text(first) + tail,
                pattern,
                i,
            ) by {
                lemma_part_no_match(first, tail, name, i);
            }
            lemma_replaced_past(part_text(first), tail, pattern, value);
        }
    }
}

/// A template of plain parts without a placeholder of `name` among them
/// holds no placeholder of `name`.
proof fn lemma_no_hole(parts: Seq<TemplatePart>, name: Seq<char>)
    requires
        plain_parts(parts),
        braceless(name),
        forall|i: int| 0 <= i < parts.len() ==> #[trigger] parts[i] != TemplatePart::Hole(name),
    ensures
        !contains_pattern(template_text(parts), placeholder(name)),
    decreases parts.len(),
{
    let pattern = placeholder(name);
    let text = template_text(parts);
    if parts.len() == 0 {
        assert forall|at: int| !matches_at(text, pattern, at) by {}
    } else {
        let first = parts[0];
        let rest = parts.drop_first();
        let own = part_text(first);
        let tail = template_text(rest);
        assert(plain_parts(rest)) by {
            assert forall|i: int| 0 <= i < rest.len() implies plain_part(#[trigger] rest[i]) by {
                assert(rest[i] == parts[i + 1]);
            }
        }
        assert forall|i: int| 0 <= i < rest.len() implies #[trigger] rest[i]
            != TemplatePart::Hole(name) by {
            assert(rest[i] == parts[i + 1]);
        }
        lemma_no_hole(rest, name);
        assert forall|at: int| !matches_at(text, pattern, at) by {
            if matches_at(text, pattern, at) {
                if at < own.len() {
                    lemma_part_no_match(first, tail, name, at);
                } else {
                    assert(tail.subrange(at - own.len(), at - own.len() + pattern.len())
                        =~= text.subrange(at, at + pattern.len()));
                    assert(matches_at(tail, pattern, at - own.len()));
                }
            }
        }
    }
}

/// Substituting arguments without braces into a template of plain parts
/// fills the placeholders of their names: what comes out is a template of
/// plain parts again, without a placeholder of a supplied name among them.
proof fn lemma_filled_with(parts: Seq<TemplatePart>, args: Seq<(Seq<char>, JsonView)>)
    requires
        plain_parts(parts),
        braceless_arguments(args),
    ensures
        substituted(template_text(parts), args) == template_text(filled_with(parts, args)),
        plain_parts(filled_with(parts, args)),
        filled_with(parts, args).len() == parts.len(),
        forall|i: int, k: int|
            0 <= i < parts.len() && 0 <= k < args.len() ==> #[trigger] filled_with(parts, args)[i]
                != TemplatePart::Hole(#[trigger] args[k].0),
    decreases args.len(),
{
    if args.len() > 0 {
        let before = args.drop_last();
        let name = args.last().0;
        let value = inline_text(args.last().1);
        assert(args.last() == args[args.len() - 1]);
        assert(braceless_arguments(before)) by {
            assert forall|k: int| 0 <= k < before.len() implies braceless(
                (#[trigger] before[k]).0,
            ) && braceless(inline_text(before[k].1)) by {
                assert(before[k] == args[k]);
            }
        }
        lemma_filled_with(parts, before);
        let so_far = filled_with(parts, before);
        lemma_filled(so_far, name, value);
        let now = filled(so_far, name, value);
        assert(now == filled_with(parts, args));
        assert forall|i: int| 0 <= i < now.len() implies plain_part(#[trigger] now[i]) by {
            assert(plain_part(so_far[i]));
        }
        assert forall|i: int, k: int| 0 <= i < parts.len() && 0 <= k < args.len() implies
            #[trigger] now[i] != TemplatePart::Hole(#[trigger] args[k].0) by {
            if k < before.len() {
                assert(before[k] == args[k]);
                assert(so_far[i] != TemplatePart::Hole(before[k].0));
            }
        }
    }
}

/// After substitution no placeholder of a supplied name is left, where the
/// template follows the grammar and the arguments hold no brace.
proof fn lemma_grammar_placeholders_gone(
    template: Seq<char>,
    args: Seq<(Seq<char>, JsonView)>,
    which: int,
)
    requires
        follows_grammar(template),
        braceless_arguments(args),
        0 <= which < args.len(),
    ensures
        !contains_pattern(substituted(template, args), placeholder(args[which].0)),
{
    let parts = choose|parts: Seq<TemplatePart>|
        plain_parts(parts) && #[trigger] template_text(parts) == template;
    lemma_filled_with(parts, args);
    let out = filled_with(parts, args);
    assert forall|i: int| 0 <= i < out.len() implies #[trigger] out[i] != TemplatePart::Hole(
        args[which].0,
    ) by {}
    lemma_no_hole(out, args[which].0);
}

/// Substituting `args` into `template` brings no placeholder back. That is
/// so where the values are plain, whatever the template; and where the
/// template follows the grammar and no name or value holds a brace,
/// whatever else the values hold.
pub open spec fn substitutes_cleanly(template: Seq<char>, args: Seq<(Seq<char>, JsonView)>)
    -> bool {
    plain_values(args) || (follows_grammar(template) && braceless_arguments(args))
}

/// After a clean substitution no placeholder of a supplied name is left.
pub proof fn lemma_placeholders_gone(
    template: Seq<char>,
    args: Seq<(Seq<char>, JsonView)>,
    which: int,
)
    requires
        substitutes_cleanly(template, args),
        0 <= which < args.len(),
    ensures
        !contains_pattern(substituted(template, args), placeholder(args[which].0)),
{
    if plain_values(args) {
        lemma_plain_placeholders_gone(template, args, which);
    } else {
        lemma_grammar_placeholders_gone(template, args, which);
    }
}

/// A clean substitution is idempotent: substituting the same arguments a
/// second time changes nothing.
pub proof fn lemma_substitution_idempotent(template: Seq<char>, args: Seq<(Seq<char>, JsonView)>)
    requires
        substitutes_cleanly(template, args),
    ensures
        substituted(substituted(template, args), args) == substituted(template, args),
{
    let once = substituted(template, args);
    assert forall|k: int| 0 <= k < args.len() implies !contains_pattern(
        once,
        placeholder(#[trigger] args[k].0),
    ) by {
        lemma_placeholders_gone(template, args, k);
    }
    lemma_substitution_without(once, args);
}

} // verus!
