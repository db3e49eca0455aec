use crate::decimal::{all_digits, decimal_value};
use crate::grammar;
use crate::model::ExprModel;
use crate::utils::{
    after_tag, ident_of, leading, lemma_run_end, lemma_run_end_unique, skip_spaces,
    skip_whitespace, split_leading, CharClass,
};
use vstd::prelude::*;

verus! {

/// Whether `name` is an identifier: a letter, then letters and digits.
pub open spec fn is_identifier(name: Seq<char>) -> bool {
    &&& name.len() > 0
    &&& CharClass::Alphabetic.contains(name[0])
    &&& forall|i: int| 0 <= i < name.len() ==> CharClass::Alphanumeric.contains(#[trigger] name[i])
}

/// Where `run` holds only `class` characters and `rest` does not begin with
/// one, the leading `class` characters of `run + rest` are `run`.
pub proof fn leading_of_concat(run: Seq<char>, rest: Seq<char>, class: CharClass)
    requires
        forall|i: int| 0 <= i < run.len() ==> class.contains(#[trigger] run[i]),
        rest.len() > 0 ==> !class.contains(rest[0]),
    ensures
        leading(run + rest, class) == run.len(),
        split_leading(run + rest, class) == (rest, run),
{
    let s = run + rest;
    assert forall|i: int| 0 <= i < run.len() implies class.contains(#[trigger] s[i]) by {
        assert(s[i] == run[i]);
    }
    if run.len() < s.len() {
        assert(s[run.len() as int] == rest[0]);
    }
    lemma_run_end_unique(s, class, 0, run.len() as int);
    assert(s.skip(run.len() as int) =~= rest);
    assert(s.take(run.len() as int) =~= run);
}

/// A text that begins with `literal` is `literal` and what `after_tag` leaves.
pub proof fn tag_of_concat(literal: Seq<char>, rest: Seq<char>)
    ensures
        after_tag(literal, literal + rest) == Ok::<Seq<char>, Seq<char>>(rest),
{
    let s = literal + rest;
    assert(s.subrange(0, literal.len() as int) =~= literal);
    assert(s.skip(literal.len() as int) =~= rest);
}

/// An identifier that is followed by something that is neither a letter nor a
/// digit is found whole.
pub proof fn identifier_is_found(name: Seq<char>, rest: Seq<char>)
    requires
        is_identifier(name),
        rest.len() > 0 ==> !CharClass::Alphanumeric.contains(rest[0]),
    ensures
        ident_of(name + rest) == Ok::<(Seq<char>, Seq<char>), Seq<char>>((rest, name)),
{
    leading_of_concat(name, rest, CharClass::Alphanumeric);
    assert((name + rest)[0] == name[0]);
}

/// Digits that write an `i32` and are followed by something that is no digit
/// are read as that number.
pub proof fn literal_is_read(digits: Seq<char>, rest: Seq<char>)
    requires
        digits.len() > 0,
        all_digits(digits),
        decimal_value(digits) <= i32::MAX,
        rest.len() > 0 ==> !CharClass::Digit.contains(rest[0]),
    ensures
        grammar::number(digits + rest) == Ok::<(Seq<char>, ExprModel), Seq<char>>(
            (rest, ExprModel::Number(decimal_value(digits) as i32)),
        ),
{
    leading_of_concat(digits, rest, CharClass::Digit);
}

/// A text that begins with none of the four operator characters holds no
/// operator.
pub proof fn operator_needs_its_character(s: Seq<char>)
    requires
        s.len() > 0 ==> s[0] != '+' && s[0] != '-' && s[0] != '*' && s[0] != '/',
    ensures
        grammar::operator(s) is Err,
{
    reveal_strlit("+");
    reveal_strlit("-");
    reveal_strlit("*");
    reveal_strlit("/");
    if "+"@.is_prefix_of(s) {
        assert(s.subrange(0, 1)[0] == '+');
    }
    if "-"@.is_prefix_of(s) {
        assert(s.subrange(0, 1)[0] == '-');
    }
    if "*"@.is_prefix_of(s) {
        assert(s.subrange(0, 1)[0] == '*');
    }
    if "/"@.is_prefix_of(s) {
        assert(s.subrange(0, 1)[0] == '/');
    }
}

/// A text that does not begin with a `class` character has no leading `class`
/// characters.
pub proof fn nothing_leads(s: Seq<char>, class: CharClass)
    requires
        s.len() > 0 ==> !class.contains(s[0]),
    ensures
        leading(s, class) == 0,
        s.skip(leading(s, class)) == s,
{
    lemma_run_end_unique(s, class, 0, 0);
    assert(s.skip(0) =~= s);
}

/// A text that does not begin with the first character of `literal` does not
/// begin with `literal`.
pub proof fn tag_needs_its_first_character(literal: Seq<char>, s: Seq<char>)
    requires
        literal.len() > 0,
        s.len() > 0 ==> s[0] != literal[0],
    ensures
        after_tag(literal, s) is Err,
{
    if literal.is_prefix_of(s) {
        assert(s.subrange(0, literal.len() as int)[0] == literal[0]);
    }
}

/// Skipping spaces and then whitespace is skipping whitespace, and skipping
/// spaces twice is skipping them once. What is skipped is never more than
/// there is.
pub proof fn skipping_spaces_first(t: Seq<char>)
    ensures
        skip_whitespace(skip_spaces(t)) == skip_whitespace(t),
        skip_spaces(skip_spaces(t)) == skip_spaces(t),
        skip_spaces(t).len() <= t.len(),
        skip_whitespace(t).len() <= t.len(),
{
    let a = leading(t, CharClass::Space);
    let b = leading(t, CharClass::Whitespace);
    crate::utils::lemma_run_end(t, CharClass::Space, 0);
    crate::utils::lemma_run_end(t, CharClass::Whitespace, 0);
    if b < a {
        assert(CharClass::Space.contains(t[b]));
    }
    let u = t.skip(a);
    assert forall|i: int| 0 <= i < b - a implies CharClass::Whitespace.contains(
        #[trigger] u[i],
    ) by {
        assert(u[i] == t[a + i]);
    }
    if b - a < u.len() {
        assert(u[b - a] == t[b]);
    }
    lemma_run_end_unique(u, CharClass::Whitespace, 0, b - a);
    assert(u.skip(b - a) =~= t.skip(b));
    if u.len() > 0 {
        assert(u[0] == t[a]);
    }
    nothing_leads(u, CharClass::Space);
}

/// What is taken off the front of a text and what is left make up the text.
pub proof fn split_leading_parts(s: Seq<char>, class: CharClass)
    ensures
        split_leading(s, class).1 + split_leading(s, class).0 == s,
        split_leading(s, class).1.len() == leading(s, class),
        0 <= leading(s, class) <= s.len(),
        forall|i: int|
            0 <= i < leading(s, class) ==> class.contains(#[trigger] split_leading(s, class).1[i]),
        split_leading(s, class).0.len() > 0 ==> !class.contains(split_leading(s, class).0[0]),
{
    lemma_run_end(s, class, 0);
    let n = leading(s, class);
    assert(s.take(n) + s.skip(n) =~= s);
    if s.skip(n).len() > 0 {
        assert(s.skip(n)[0] == s[n]);
    }
}

/// An identifier that was found is an identifier, stands at the front of the
/// text, and is followed by neither a letter nor a digit.
pub proof fn found_identifier(s: Seq<char>)
    requires
        ident_of(s) is Ok,
    ensures
        ({
            let (rest, name) = ident_of(s)->Ok_0;
            &&& is_identifier(name)
            &&& name + rest == s
            &&& rest.len() < s.len()
            &&& rest.len() > 0 ==> !CharClass::Alphanumeric.contains(rest[0])
        }),
{
    split_leading_parts(s, CharClass::Alphanumeric);
    lemma_run_end(s, CharClass::Alphanumeric, 1);
    let (rest, name) = ident_of(s)->Ok_0;
    assert(name[0] == s[0]);
}

} // verus!
