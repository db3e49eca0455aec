use crate::decimal::all_digits;
use vstd::prelude::*;

verus! {

/// The character classes that the scanners tell apart.
#[derive(Debug, Clone, Copy, PartialEq, Eq)]
pub enum CharClass {
    /// A space or a newline.
    Whitespace,
    /// A space.
    Space,
    /// An ASCII digit.
    Digit,
    /// An ASCII letter.
    Alphabetic,
    /// An ASCII letter or digit.
    Alphanumeric,
}

impl CharClass {
    /// Whether `c` belongs to the class.
    pub open spec fn contains(self, c: char) -> bool {
        match self {
            CharClass::Whitespace => c == ' ' || c == '\n',
            CharClass::Space => c == ' ',
            CharClass::Digit => '0' <= c <= '9',
            CharClass::Alphabetic => 'a' <= c <= 'z' || 'A' <= c <= 'Z',
            CharClass::Alphanumeric => 'a' <= c <= 'z' || 'A' <= c <= 'Z' || '0' <= c <= '9',
        }
    }

    /// Whether `c` belongs to the class.
    pub fn accepts(self, c: char) -> (b: bool)
        ensures
            b == self.contains(c),
    {
        match self {
            CharClass::Whitespace => c == ' ' || c == '\n',
            CharClass::Space => c == ' ',
            CharClass::Digit => '0' <= c && c <= '9',
            CharClass::Alphabetic => ('a' <= c && c <= 'z') || ('A' <= c && c <= 'Z'),
            CharClass::Alphanumeric => ('a' <= c && c <= 'z') || ('A' <= c && c <= 'Z') || ('0'
                <= c && c <= '9'),
        }
    }
}

/// Where the longest run of `class` characters of `s` that begins at `from` ends.
pub open spec fn run_end(s: Seq<char>, class: CharClass, from: int) -> int
    decreases s.len() - from,
{
    if 0 <= from < s.len() && class.contains(s[from]) {
        run_end(s, class, from + 1)
    } else {
        from
    }
}

/// The length of the longest prefix of `s` made of `class` characters.
pub open spec fn leading(s: Seq<char>, class: CharClass) -> int {
    run_end(s, class, 0)
}

/// A run ends inside the text, holds only characters of its class, and stops at
/// the end of the text or before a character outside the class.
pub proof fn lemma_run_end(s: Seq<char>, class: CharClass, from: int)
    requires
        0 <= from <= s.len(),
    ensures
        from <= run_end(s, class, from) <= s.len(),
        forall|i: int| from <= i < run_end(s, class, from) ==> class.contains(#[trigger] s[i]),
        run_end(s, class, from) < s.len() ==> !class.contains(s[run_end(s, class, from)]),
    decreases s.len() - from,
{
    if from < s.len() && class.contains(s[from]) {
        lemma_run_end(s, class, from + 1);
    }
}

/// The three properties of `lemma_run_end` single out one position.
pub proof fn lemma_run_end_unique(s: Seq<char>, class: CharClass, from: int, end: int)
    requires
        0 <= from <= end <= s.len(),
        forall|i: int| from <= i < end ==> class.contains(#[trigger] s[i]),
        end < s.len() ==> !class.contains(s[end]),
    ensures
        run_end(s, class, from) == end,
    decreases end - from,
{
    if from < end {
        assert(class.contains(s[from]));
        lemma_run_end_unique(s, class, from + 1, end);
    }
}

/// Splits `s` after its longest prefix whose characters `accept` admits, and
/// returns the remainder and that prefix.
pub fn take_while<F: Fn(char) -> bool>(accept: F, s: &str) -> (res: (&str, &str))
    requires
        forall|c: char| #[trigger] accept.requires((c,)),
    ensures
        res.1@ + res.0@ == s@,
        forall|i: int| 0 <= i < res.1@.len() ==> accept.ensures((#[trigger] res.1@[i],), true),
        res.0@.len() > 0 ==> accept.ensures((res.0@[0],), false),
{
    let n = s.unicode_len();
    let mut i: usize = 0;
    let mut stopped = false;
    while i < n && !stopped
        invariant
            0 <= i <= n,
            n == s@.len(),
            forall|c: char| #[trigger] accept.requires((c,)),
            forall|k: int| 0 <= k < i ==> accept.ensures((#[trigger] s@[k],), true),
            stopped ==> i < n && accept.ensures((s@[i as int],), false),
        decreases n - i + if stopped { 0int } else { 1int },
    {
        let c = s.get_char(i);
        if accept(c) {
            i = i + 1;
        } else {
            stopped = true;
        }
    }
    let remainder = s.substring_char(i, n);
    let extracted = s.substring_char(0, i);
    assert(extracted@ + remainder@ =~= s@);
    (remainder, extracted)
}

/// As `take_while`, but an empty prefix is the failure `error_msg`.
pub fn take_while_with_error<F: Fn(char) -> bool>(
    accept: F,
    s: &str,
    error_msg: String,
) -> (res: Result<(&str, &str), String>)
    requires
        forall|c: char| #[trigger] accept.requires((c,)),
    ensures
        match res {
            Ok((remainder, extracted)) => {
                &&& extracted@.len() > 0
                &&& extracted@ + remainder@ == s@
                &&& forall|i: int|
                    0 <= i < extracted@.len() ==> accept.ensures((#[trigger] extracted@[i],), true)
                &&& remainder@.len() > 0 ==> accept.ensures((remainder@[0],), false)
            },
            Err(e) => {
                &&& e == error_msg
                &&& s@.len() > 0 ==> accept.ensures((s@[0],), false)
            },
        },
{
    let (remainder, extracted) = take_while(accept, s);
    if extracted.is_empty() {
        assert(remainder@ =~= s@);
        Err(error_msg)
    } else {
        Ok((remainder, extracted))
    }
}

/// What a scanner makes of a text: the remainder and what it extracted, or the
/// reason for which it failed.
pub type Scanned<V> = Result<(Seq<char>, V), Seq<char>>;

/// What splitting `s` after its leading `class` characters gives: the remainder
/// and the prefix.
pub open spec fn split_leading(s: Seq<char>, class: CharClass) -> (Seq<char>, Seq<char>) {
    (s.skip(leading(s, class)), s.take(leading(s, class)))
}

/// As `split_leading`, where an empty prefix is the failure `reason`.
pub open spec fn split_leading_required(
    s: Seq<char>,
    class: CharClass,
    reason: Seq<char>,
) -> Scanned<Seq<char>> {
    if leading(s, class) > 0 {
        Ok(split_leading(s, class))
    } else {
        Err(reason)
    }
}

/// `s` without its leading spaces and newlines.
pub open spec fn skip_whitespace(s: Seq<char>) -> Seq<char> {
    s.skip(leading(s, CharClass::Whitespace))
}

/// `s` without its leading spaces.
pub open spec fn skip_spaces(s: Seq<char>) -> Seq<char> {
    s.skip(leading(s, CharClass::Space))
}

/// The leading spaces and newlines of `s`, of which there must be one.
pub open spec fn whitespace_of(s: Seq<char>) -> Scanned<Seq<char>> {
    split_leading_required(s, CharClass::Whitespace, "expected a space"@)
}

/// The leading spaces of `s`, of which there must be one.
pub open spec fn spaces_of(s: Seq<char>) -> Scanned<Seq<char>> {
    split_leading_required(s, CharClass::Space, "expected a space"@)
}

/// The leading digits of `s`, of which there must be one.
pub open spec fn digits_of(s: Seq<char>) -> Scanned<Seq<char>> {
    split_leading_required(s, CharClass::Digit, "expected digits"@)
}

/// The identifier that `s` begins with: a letter, then letters and digits.
pub open spec fn ident_of(s: Seq<char>) -> Scanned<Seq<char>> {
    if s.len() > 0 && CharClass::Alphabetic.contains(s[0]) {
        Ok(split_leading(s, CharClass::Alphanumeric))
    } else {
        Err("expected identifier"@)
    }
}

/// `s` without the prefix `literal`, which it must begin with.
pub open spec fn after_tag(literal: Seq<char>, s: Seq<char>) -> Result<Seq<char>, Seq<char>> {
    if literal.is_prefix_of(s) {
        Ok(s.skip(literal.len() as int))
    } else {
        Err("expected "@ + literal)
    }
}

/// Whether `c` is one of the four operator characters.
pub open spec fn is_operator(c: char) -> bool {
    c == '+' || c == '-' || c == '*' || c == '/'
}

/// Whether the outcome of a scanner is the one that `expected` describes.
pub open spec fn scanned_as(
    res: Result<(&str, &str), String>,
    expected: Scanned<Seq<char>>,
) -> bool {
    match res {
        Ok((remainder, extracted)) => expected == Ok::<(Seq<char>, Seq<char>), Seq<char>>(
            (remainder@, extracted@),
        ),
        Err(e) => expected == Err::<(Seq<char>, Seq<char>), Seq<char>>(e@),
    }
}

/// Whether a scanner that succeeded extracted a prefix of `s` that is not empty
/// and left the rest of `s`.
pub open spec fn narrowed(res: Result<(&str, &str), String>, s: Seq<char>) -> bool {
    res matches Ok((remainder, extracted)) ==> extracted@.len() > 0 && extracted@ + remainder@
        == s
}

/// A split whose prefix holds only `class` characters and whose remainder does
/// not begin with one is the split after the leading `class` characters.
proof fn lemma_split_is_leading(
    s: Seq<char>,
    class: CharClass,
    remainder: Seq<char>,
    extracted: Seq<char>,
)
    requires
        extracted + remainder == s,
        forall|i: int| 0 <= i < extracted.len() ==> class.contains(#[trigger] extracted[i]),
        remainder.len() > 0 ==> !class.contains(remainder[0]),
    ensures
        leading(s, class) == extracted.len(),
        (remainder, extracted) == split_leading(s, class),
{
    let n = extracted.len() as int;
    assert forall|i: int| 0 <= i < n implies class.contains(#[trigger] s[i]) by {
        assert(s[i] == extracted[i]);
    }
    if n < s.len() {
        assert(s[n] == remainder[0]);
    }
    lemma_run_end_unique(s, class, 0, n);
    assert(remainder =~= s.skip(n));
    assert(extracted =~= s.take(n));
}

/// Splits `s` after the longest prefix of `class` characters.
fn take_class(class: CharClass, s: &str) -> (res: (&str, &str))
    ensures
        (res.0@, res.1@) == split_leading(s@, class),
        res.1@.len() == leading(s@, class),
        res.1@ + res.0@ == s@,
        forall|i: int| 0 <= i < res.1@.len() ==> class.contains(#[trigger] res.1@[i]),
{
    let res = take_while(
        (|c: char| -> (b: bool)
            ensures
                b == class.contains(c),
            {
                class.accepts(c)
            }),
        s,
    );
    proof {
        lemma_split_is_leading(s@, class, res.0@, res.1@);
    }
    res
}

/// As `take_class`, where an empty prefix is the failure `error_msg`.
fn take_class_with_error(
    class: CharClass,
    s: &str,
    error_msg: String,
) -> (res: Result<(&str, &str), String>)
    ensures
        scanned_as(res, split_leading_required(s@, class, error_msg@)),
        narrowed(res, s@),
        res matches Ok((_, extracted)) ==> forall|i: int|
            0 <= i < extracted@.len() ==> class.contains(#[trigger] extracted@[i]),
{
    let res = take_while_with_error(
        (|c: char| -> (b: bool)
            ensures
                b == class.contains(c),
            {
                class.accepts(c)
            }),
        s,
        error_msg,
    );
    proof {
        match res {
            Ok((remainder, extracted)) => {
                lemma_split_is_leading(s@, class, remainder@, extracted@);
            },
            Err(_) => {
                assert(leading(s@, class) == 0);
            },
        }
    }
    res
}

/// Takes the leading spaces and newlines off `s`: returns the remainder and
/// what was taken, which may be empty.
pub fn extract_whitespaces(s: &str) -> (res: (&str, &str))
    ensures
        (res.0@, res.1@) == split_leading(s@, CharClass::Whitespace),
        res.0@ == skip_whitespace(s@),
        res.1@ + res.0@ == s@,
{
    take_class(CharClass::Whitespace, s)
}

/// Takes the leading spaces off `s`, and fails where `s` does not begin with
/// a space.
pub fn extract_spaces_with_error(s: &str) -> (res: Result<(&str, &str), String>)
    ensures
        scanned_as(res, spaces_of(s@)),
        narrowed(res, s@),
{
    take_class_with_error(CharClass::Space, s, String::from_str("expected a space"))
}

/// Takes nothing off `s`: returns `s` and the empty text.
pub fn extract_nothing(s: &str) -> (res: (&str, &str))
    ensures
        res.0@ == s@,
        res.1@.len() == 0,
{
    (s, s.substring_char(0, 0))
}

/// As `extract_whitespaces`, but fails where `s` begins with neither a space
/// nor a newline.
pub fn extract_whitespaces_with_error(s: &str) -> (res: Result<(&str, &str), String>)
    ensures
        scanned_as(res, whitespace_of(s@)),
        narrowed(res, s@),
{
    take_class_with_error(CharClass::Whitespace, s, String::from_str("expected a space"))
}

/// Takes the leading digits off `s`, and fails where there is none.
pub fn extract_digits(s: &str) -> (res: Result<(&str, &str), String>)
    ensures
        scanned_as(res, digits_of(s@)),
        narrowed(res, s@),
        res matches Ok((_, digits)) ==> all_digits(digits@),
{
    take_class_with_error(CharClass::Digit, s, String::from_str("expected digits"))
}

/// Takes an identifier off the front of `s`, and fails where `s` does not begin
/// with a letter.
pub fn extract_ident(s: &str) -> (res: Result<(&str, &str), String>)
    ensures
        scanned_as(res, ident_of(s@)),
        narrowed(res, s@),
{
    let input_starts_with_alphabet = if s.unicode_len() > 0 {
        CharClass::Alphabetic.accepts(s.get_char(0))
    } else {
        false
    };
    if input_starts_with_alphabet {
        proof {
            lemma_run_end(s@, CharClass::Alphanumeric, 1);
        }
        Ok(take_class(CharClass::Alphanumeric, s))
    } else {
        Err(String::from_str("expected identifier"))
    }
}

/// Takes `starting_text` off the front of `s`, and fails where `s` does not
/// begin with it.
pub fn tag<'a, 'b>(starting_text: &'a str, s: &'b str) -> (res: Result<&'b str, String>)
    ensures
        match res {
            Ok(remainder) => after_tag(starting_text@, s@) == Ok::<Seq<char>, Seq<char>>(
                remainder@,
            ),
            Err(e) => after_tag(starting_text@, s@) == Err::<Seq<char>, Seq<char>>(e@),
        },
        res matches Ok(remainder) ==> starting_text@ + remainder@ == s@,
{
    let len = s.unicode_len();
    let tag_len = starting_text.unicode_len();
    let mut agree = tag_len <= len;
    let mut i: usize = 0;
    while agree && i < tag_len
        invariant
            len == s@.len(),
            tag_len == starting_text@.len(),
            0 <= i <= tag_len,
            agree ==> tag_len <= len,
            agree ==> forall|k: int| 0 <= k < i ==> s@[k] == starting_text@[k],
            !agree ==> !starting_text@.is_prefix_of(s@),
        decreases tag_len - i + if agree { 1int } else { 0int },
    {
        if s.get_char(i) == starting_text.get_char(i) {
            i = i + 1;
        } else {
            agree = false;
            assert(s@.subrange(0, tag_len as int)[i as int] != starting_text@[i as int]);
        }
    }
    if agree {
        assert(starting_text@ =~= s@.subrange(0, tag_len as int));
        let remainder = s.substring_char(tag_len, len);
        assert(starting_text@ + remainder@ =~= s@);
        Ok(remainder)
    } else {
        Err(String::from_str("expected ").concat(starting_text))
    }
}

/// Splits `s`, which begins with an operator character, after that character:
/// returns the remainder and the operator.
pub fn extract_operator(s: &str) -> (res: (&str, &str))
    requires
        s@.len() > 0,
        is_operator(s@[0]),
    ensures
        res.0@ == s@.skip(1),
        res.1@ == s@.take(1),
{
    let len = s.unicode_len();
    (s.substring_char(1, len), s.substring_char(0, 1))
}

/// The items that `item` finds in `s` one after another, each followed by what
/// `separator` skips, up to the first place where `item` fails; and the text
/// that is left there.
pub open spec fn sequence_of<V>(
    item: spec_fn(Seq<char>) -> Scanned<V>,
    separator: spec_fn(Seq<char>) -> Seq<char>,
    s: Seq<char>,
) -> (Seq<char>, Seq<V>)
    decreases s.len(),
{
    match item(s) {
        Ok((after_item, v)) => {
            let next = separator(after_item);
            if after_item.len() < s.len() && next.len() <= after_item.len() {
                let (remainder, items) = sequence_of(item, separator, next);
                (remainder, seq![v] + items)
            } else {
                (s, Seq::empty())
            }
        },
        Err(_) => (s, Seq::empty()),
    }
}

/// As `sequence_of`, where no item at all is a failure.
pub open spec fn non_empty_sequence_of<V>(
    item: spec_fn(Seq<char>) -> Scanned<V>,
    separator: spec_fn(Seq<char>) -> Seq<char>,
    s: Seq<char>,
) -> Scanned<Seq<V>> {
    let (remainder, items) = sequence_of(item, separator, s);
    if items.len() == 0 {
        Err("expected a sequence with more than one item"@)
    } else {
        Ok((remainder, items))
    }
}

/// The views of the elements of `items`.
pub open spec fn views<T: View>(items: Seq<T>) -> Seq<T::V> {
    Seq::new(items.len(), |i: int| items[i]@)
}

/// Whether the outcome of a parser is the one that `expected` describes.
pub open spec fn parsed_as<T: View>(
    res: Result<(&str, T), String>,
    expected: Scanned<T::V>,
) -> bool {
    match res {
        Ok((remainder, value)) => expected == Ok::<(Seq<char>, T::V), Seq<char>>(
            (remainder@, value@),
        ),
        Err(e) => expected == Err::<(Seq<char>, T::V), Seq<char>>(e@),
    }
}

/// Whether the outcome of a parser of sequences is the one that `expected`
/// describes.
pub open spec fn parsed_sequence_as<T: View>(
    res: Result<(&str, Vec<T>), String>,
    expected: Scanned<Seq<T::V>>,
) -> bool {
    match res {
        Ok((remainder, items)) => expected == Ok::<(Seq<char>, Seq<T::V>), Seq<char>>(
            (remainder@, views(items@)),
        ),
        Err(e) => expected == Err::<(Seq<char>, Seq<T::V>), Seq<char>>(e@),
    }
}

/// Parses items with `parser` for as long as it succeeds, skipping after each
/// what `separator_parser` takes. `item` and `separator` say what the two
/// parsers compute. Every success of `parser` must shorten the text: the loop
/// ends for that reason.
pub fn sequence<'a, T: View, P, S>(
    parser: P,
    separator_parser: S,
    s: &'a str,
    Ghost(item): Ghost<spec_fn(Seq<char>) -> Scanned<T::V>>,
    Ghost(separator): Ghost<spec_fn(Seq<char>) -> Seq<char>>,
) -> (res: Result<(&'a str, Vec<T>), String>) where
    P: Fn(&str) -> Result<(&str, T), String>,
    S: Fn(&str) -> (&str, &str),

    requires
        forall|x: &str| x@.len() <= s@.len() ==> #[trigger] parser.requires((x,)),
        forall|x: &str, r: Result<(&str, T), String>| #[trigger]
            parser.ensures((x,), r) ==> parsed_as(r, item(x@)),
        forall|x: &str, remainder: &str, value: T| #[trigger]
            parser.ensures((x,), Ok((remainder, value))) ==> remainder@.len() < x@.len(),
        forall|x: &str| #[trigger] separator_parser.requires((x,)),
        forall|x: &str, r: (&str, &str)| #[trigger]
            separator_parser.ensures((x,), r) ==> r.0@ == separator(x@) && r.0@.len() <= x@.len(),
    ensures
        res matches Ok((remainder, items)) && (remainder@, views(items@)) == sequence_of(
            item,
            separator,
            s@,
        ),
        res matches Ok((remainder, items)) && remainder@.len() <= s@.len() && (items@.len() > 0
            ==> remainder@.len() < s@.len()),
{
    let mut items: Vec<T> = Vec::new();
    let mut cur = s;
    loop
        invariant
            cur@.len() <= s@.len(),
            items@.len() > 0 ==> cur@.len() < s@.len(),
            forall|x: &str| x@.len() <= s@.len() ==> #[trigger] parser.requires((x,)),
            forall|x: &str, r: Result<(&str, T), String>| #[trigger]
                parser.ensures((x,), r) ==> parsed_as(r, item(x@)),
            forall|x: &str, remainder: &str, value: T| #[trigger]
                parser.ensures((x,), Ok((remainder, value))) ==> remainder@.len() < x@.len(),
            forall|x: &str| #[trigger] separator_parser.requires((x,)),
            forall|x: &str, r: (&str, &str)| #[trigger]
                separator_parser.ensures((x,), r) ==> r.0@ == separator(x@) && r.0@.len()
                    <= x@.len(),
            sequence_of(item, separator, s@) == (
                sequence_of(item, separator, cur@).0,
                views(items@) + sequence_of(item, separator, cur@).1,
            ),
        decreases cur@.len(),
    {
        match parser(cur) {
            Ok((new_s, value)) => {
                let ghost before = views(items@);
                let ghost found = value@;
                items.push(value);
                let (after, _) = separator_parser(new_s);
                proof {
                    assert(views(items@) =~= before.push(found));
                    assert(before.push(found) + sequence_of(item, separator, after@).1 =~= before
                        + (seq![found] + sequence_of(item, separator, after@).1));
                }
                cur = after;
            },
            Err(_) => {
                proof {
                    assert(views(items@) + Seq::<T::V>::empty() =~= views(items@));
                }
                return Ok((cur, items));
            },
        }
    }
}

/// As `sequence`, but fails where not one item was parsed.
pub fn non_empty_sequence<'a, T: View, P, S>(
    parser: P,
    separator_parser: S,
    s: &'a str,
    Ghost(item): Ghost<spec_fn(Seq<char>) -> Scanned<T::V>>,
    Ghost(separator): Ghost<spec_fn(Seq<char>) -> Seq<char>>,
) -> (res: Result<(&'a str, Vec<T>), String>) where
    P: Fn(&str) -> Result<(&str, T), String>,
    S: Fn(&str) -> (&str, &str),

    requires
        forall|x: &str| x@.len() <= s@.len() ==> #[trigger] parser.requires((x,)),
        forall|x: &str, r: Result<(&str, T), String>| #[trigger]
            parser.ensures((x,), r) ==> parsed_as(r, item(x@)),
        forall|x: &str, remainder: &str, value: T| #[trigger]
            parser.ensures((x,), Ok((remainder, value))) ==> remainder@.len() < x@.len(),
        forall|x: &str| #[trigger] separator_parser.requires((x,)),
        forall|x: &str, r: (&str, &str)| #[trigger]
            separator_parser.ensures((x,), r) ==> r.0@ == separator(x@) && r.0@.len() <= x@.len(),
    ensures
        parsed_sequence_as(res, non_empty_sequence_of(item, separator, s@)),
        res matches Ok((remainder, items)) ==> remainder@.len() < s@.len(),
{
    match sequence(parser, separator_parser, s, Ghost(item), Ghost(separator)) {
        Ok((remainder, items)) => {
            if items.len() == 0 {
                Err(String::from_str("expected a sequence with more than one item"))
            } else {
                Ok((remainder, items))
            }
        },
        Err(e) => Err(e),
    }
}

} // verus!
