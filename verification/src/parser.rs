//! A recursive-descent parser for documents of one self-closing element with
//! at most one attribute, preceded by a preamble.  Inputs the original
//! grammar rejects make every function return `None` instead.

use crate::dom::{Document, Element};
use vstd::prelude::*;
use vstd::string::StrSliceExecFns;

verus! {

/// The character classes the scanner distinguishes.
#[derive(Clone, Copy, Debug, PartialEq, Eq, Structural)]
pub enum CharClass {
    NameStart,
    Name,
    Space,
}

/// Whether a character may start a name.
pub open spec fn spec_is_name_start_char(c: char) -> bool {
    let u = c as u32;
    u == 58 || (65 <= u && u <= 90) || u == 95 || (97 <= u && u <= 122) || (0xC0 <= u && u <= 0xD6)
        || (0xD8 <= u && u <= 0xF6) || (0xF8 <= u && u <= 0x2FF) || (0x370 <= u && u <= 0x37D) || (
    0x37F <= u && u <= 0x1FFF) || (0x200C <= u && u <= 0x200D) || (0x2070 <= u && u <= 0x218F) || (
    0x2C00 <= u && u <= 0x2FEF) || (0x3001 <= u && u <= 0xD7FF) || (0xF900 <= u && u <= 0xFDCF) || (
    0xFDF0 <= u && u <= 0xFFFD) || (0x10000 <= u && u <= 0xEFFFF)
}

/// Whether a character may continue a name.
pub open spec fn spec_is_name_char(c: char) -> bool {
    let u = c as u32;
    spec_is_name_start_char(c) || u == 45 || u == 46 || (48 <= u && u <= 57) || u == 0xB7 || (0x300
        <= u && u <= 0x36F) || (0x203F <= u && u <= 0x2040)
}

/// Whether a character is white space.
pub open spec fn spec_is_space_char(c: char) -> bool {
    let u = c as u32;
    u == 0x20 || u == 0x9 || u == 0xD || u == 0xA
}

pub open spec fn char_in_class(c: char, class: CharClass) -> bool {
    match class {
        CharClass::NameStart => spec_is_name_start_char(c),
        CharClass::Name => spec_is_name_char(c),
        CharClass::Space => spec_is_space_char(c),
    }
}

pub fn is_name_start_char(c: char) -> (r: bool)
    ensures
        r == spec_is_name_start_char(c),
{
    let u = c as u32;
    u == 58 || (65 <= u && u <= 90) || u == 95 || (97 <= u && u <= 122) || (0xC0 <= u && u <= 0xD6)
        || (0xD8 <= u && u <= 0xF6) || (0xF8 <= u && u <= 0x2FF) || (0x370 <= u && u <= 0x37D) || (
    0x37F <= u && u <= 0x1FFF) || (0x200C <= u && u <= 0x200D) || (0x2070 <= u && u <= 0x218F) || (
    0x2C00 <= u && u <= 0x2FEF) || (0x3001 <= u && u <= 0xD7FF) || (0xF900 <= u && u <= 0xFDCF) || (
    0xFDF0 <= u && u <= 0xFFFD) || (0x10000 <= u && u <= 0xEFFFF)
}

pub fn is_name_char(c: char) -> (r: bool)
    ensures
        r == spec_is_name_char(c),
{
    let u = c as u32;
    is_name_start_char(c) || u == 45 || u == 46 || (48 <= u && u <= 57) || u == 0xB7 || (0x300 <= u
        && u <= 0x36F) || (0x203F <= u && u <= 0x2040)
}

pub fn is_space_char(c: char) -> (r: bool)
    ensures
        r == spec_is_space_char(c),
{
    let u = c as u32;
    u == 0x20 || u == 0x9 || u == 0xD || u == 0xA
}

pub fn in_class(c: char, class: CharClass) -> (r: bool)
    ensures
        r == char_in_class(c, class),
{
    match class {
        CharClass::NameStart => is_name_start_char(c),
        CharClass::Name => is_name_char(c),
        CharClass::Space => is_space_char(c),
    }
}

/// Whether `pat` occurs in `s` at position `i`.
pub open spec fn match_at(s: Seq<char>, pat: Seq<char>, i: int) -> bool {
    0 <= i && i + pat.len() <= s.len() && s.subrange(i, i + pat.len() as int) == pat
}

/// The first position at or after `i` where `pat` occurs.
pub open spec fn find_from(s: Seq<char>, pat: Seq<char>, i: int) -> Option<int>
    decreases s.len() - i,
{
    if i < 0 || i + pat.len() > s.len() {
        None
    } else if match_at(s, pat, i) {
        Some(i)
    } else if i >= s.len() {
        None
    } else {
        find_from(s, pat, i + 1)
    }
}

/// The first position at or after `i` whose character leaves the class (or
/// the length, when none does).
pub open spec fn scan_rest(s: Seq<char>, i: int, class: CharClass) -> int
    decreases s.len() - i,
{
    if i < 0 || i >= s.len() {
        s.len() as int
    } else if char_in_class(s[i], class) {
        scan_rest(s, i + 1, class)
    } else {
        i
    }
}

pub open spec fn spec_slice_literal(s: Seq<char>, expected: Seq<char>) -> Option<
    (Seq<char>, Seq<char>),
> {
    if match_at(s, expected, 0) {
        Some((s.subrange(0, expected.len() as int), s.subrange(expected.len() as int, s.len() as int)))
    } else {
        None
    }
}

pub open spec fn spec_slice_until(s: Seq<char>, pat: Seq<char>) -> Option<(Seq<char>, Seq<char>)> {
    match find_from(s, pat, 0) {
        Some(i) => Some((s.subrange(0, i), s.subrange(i, s.len() as int))),
        None => None,
    }
}

pub open spec fn spec_slice_start_rest(s: Seq<char>, first: CharClass, rest: CharClass) -> Option<
    (Seq<char>, Seq<char>),
> {
    if s.len() > 0 && char_in_class(s[0], first) {
        let k = scan_rest(s, 1, rest);
        Some((s.subrange(0, k), s.subrange(k, s.len() as int)))
    } else {
        None
    }
}

pub open spec fn spec_slice_name(s: Seq<char>) -> Option<(Seq<char>, Seq<char>)> {
    spec_slice_start_rest(s, CharClass::NameStart, CharClass::Name)
}

pub open spec fn spec_slice_space(s: Seq<char>) -> Option<(Seq<char>, Seq<char>)> {
    spec_slice_start_rest(s, CharClass::Space, CharClass::Space)
}

/// The input with any leading white space removed.
pub open spec fn spec_optional_space(s: Seq<char>) -> Seq<char> {
    match spec_slice_space(s) {
        Some((_head, tail)) => tail,
        None => s,
    }
}

pub fn match_at_exec(s: &str, pat: &str, i: usize) -> (r: bool)
    requires
        i + pat@.len() <= s@.len(),
        s@.len() <= usize::MAX,
    ensures
        r == match_at(s@, pat@, i as int),
{
    let m: usize = pat.unicode_len();
    let mut j: usize = 0;
    while j < m
        invariant
            j <= m,
            m == pat@.len(),
            i + m <= s@.len(),
            s@.len() <= usize::MAX,
            forall|k: int| 0 <= k < j ==> s@[i + k] == pat@[k],
        decreases m - j,
    {
        if s.get_char(i + j) != pat.get_char(j) {
            proof {
                assert(s@.subrange(i as int, i + m) != pat@) by {
                    assert(s@.subrange(i as int, i + m)[j as int] == s@[i + j]);
                }
            }
            return false;
        }
        j = j + 1;
    }
    proof {
        assert(s@.subrange(i as int, i + m) =~= pat@);
    }
    true
}

/// The position of the first occurrence of `pat` in `s`.
#[verifier::loop_isolation(false)]
pub fn find_sub(s: &str, pat: &str) -> (r: Option<usize>)
    ensures
        match r {
            Some(i) => find_from(s@, pat@, 0) == Some(i as int),
            None => find_from(s@, pat@, 0) is None,
        },
{
    let n: usize = s.unicode_len();
    let m: usize = pat.unicode_len();
    if m > n {
        return None;
    }
    if m == 0 {
        proof {
            assert(s@.subrange(0, 0) =~= pat@);
        }
        return Some(0);
    }
    let mut i: usize = 0;
    while i <= n - m
        invariant
            i <= n - m + 1,
            find_from(s@, pat@, 0) == find_from(s@, pat@, i as int),
        decreases n - i,
    {
        if match_at_exec(s, pat, i) {
            return Some(i);
        }
        i = i + 1;
    }
    None
}

/// Splits at a character position.
pub fn slice_at<'a>(s: &'a str, position: usize) -> (r: (&'a str, &'a str))
    requires
        position <= s@.len(),
    ensures
        r.0@ == s@.subrange(0, position as int),
        r.1@ == s@.subrange(position as int, s@.len() as int),
{
    let n: usize = s.unicode_len();
    (s.substring_char(0, position), s.substring_char(position, n))
}

/// Splits before the first occurrence of `pat`.
pub fn slice_until<'a>(s: &'a str, pat: &str) -> (r: Option<(&'a str, &'a str)>)
    ensures
        match r {
            Some(p) => spec_slice_until(s@, pat@) matches Some(q) && p.0@ == q.0 && p.1@ == q.1,
            None => spec_slice_until(s@, pat@) is None,
        },
{
    match find_sub(s, pat) {
        Some(i) => {
            proof {
                lemma_find_in_range(s@, pat@, 0);
            }
            Some(slice_at(s, i))
        },
        None => None,
    }
}

proof fn lemma_find_in_range(s: Seq<char>, pat: Seq<char>, i: int)
    requires
        find_from(s, pat, i) is Some,
    ensures
        i <= find_from(s, pat, i)->Some_0,
        find_from(s, pat, i)->Some_0 + pat.len() <= s.len(),
    decreases s.len() - i,
{
    if !(i < 0 || i + pat.len() > s.len()) && !match_at(s, pat, i) {
        lemma_find_in_range(s, pat, i + 1);
    }
}

/// Splits after a leading literal.
pub fn slice_literal<'a>(s: &'a str, expected: &str) -> (r: Option<(&'a str, &'a str)>)
    ensures
        match r {
            Some(p) => spec_slice_literal(s@, expected@) matches Some(q) && p.0@ == q.0 && p.1@
                == q.1,
            None => spec_slice_literal(s@, expected@) is None,
        },
{
    let n: usize = s.unicode_len();
    let m: usize = expected.unicode_len();
    if m > n {
        return None;
    }
    if match_at_exec(s, expected, 0) {
        Some(slice_at(s, m))
    } else {
        None
    }
}

/// Splits after a head character of one class and a run of another.
#[verifier::loop_isolation(false)]
pub fn slice_start_rest<'a>(s: &'a str, is_first: CharClass, is_rest: CharClass) -> (r: Option<
    (&'a str, &'a str),
>)
    ensures
        match r {
            Some(p) => spec_slice_start_rest(s@, is_first, is_rest) matches Some(q) && p.0@ == q.0
                && p.1@ == q.1,
            None => spec_slice_start_rest(s@, is_first, is_rest) is None,
        },
{
    let n: usize = s.unicode_len();
    if n == 0 {
        return None;
    }
    if !in_class(s.get_char(0), is_first) {
        return None;
    }
    let mut k: usize = 1;
    while k < n && in_class(s.get_char(k), is_rest)
        invariant
            1 <= k <= n,
            scan_rest(s@, 1, is_rest) == scan_rest(s@, k as int, is_rest),
        decreases n - k,
    {
        k = k + 1;
    }
    proof {
        assert(scan_rest(s@, 1, is_rest) == k as int);
    }
    Some(slice_at(s, k))
}

/// Splits off a leading name.
pub fn slice_name<'a>(s: &'a str) -> (r: Option<(&'a str, &'a str)>)
    ensures
        match r {
            Some(p) => spec_slice_name(s@) matches Some(q) && p.0@ == q.0 && p.1@ == q.1,
            None => spec_slice_name(s@) is None,
        },
{
    slice_start_rest(s, CharClass::NameStart, CharClass::Name)
}

/// Splits off leading white space.
pub fn slice_space<'a>(s: &'a str) -> (r: Option<(&'a str, &'a str)>)
    ensures
        match r {
            Some(p) => spec_slice_space(s@) matches Some(q) && p.0@ == q.0 && p.1@ == q.1,
            None => spec_slice_space(s@) is None,
        },
{
    slice_start_rest(s, CharClass::Space, CharClass::Space)
}

/// What the preamble step leaves: everything after the first `?>`.
pub open spec fn spec_parse_preamble(s: Seq<char>) -> Option<Seq<char>> {
    match find_from(s, "?>"@, 0) {
        Some(i) => Some(s.subrange(i + 2, s.len() as int)),
        None => None,
    }
}

/// A quoted attribute value: the value between two copies of `quote`, and
/// what follows the closing quote.
pub open spec fn spec_parse_attribute_value_quote(s: Seq<char>, quote: Seq<char>) -> Option<
    (Seq<char>, Seq<char>),
> {
    match spec_slice_literal(s, quote) {
        None => None,
        Some((_q1, s1)) => match spec_slice_until(s1, quote) {
            None => None,
            Some((value, s2)) => match spec_slice_literal(s2, quote) {
                None => None,
                Some((_q2, s3)) => Some((value, s3)),
            },
        },
    }
}

/// An attribute: a name, optional space, `=`, optional space, and a value in
/// single or double quotes.
pub open spec fn spec_parse_attribute(s: Seq<char>) -> Option<(Seq<char>, Seq<char>, Seq<char>)> {
    match spec_slice_name(s) {
        None => None,
        Some((name, s1)) => {
            let s2 = spec_optional_space(s1);
            match spec_slice_literal(s2, "="@) {
                None => None,
                Some((_eq, s3)) => {
                    let s4 = spec_optional_space(s3);
                    match spec_parse_attribute_value_quote(s4, "'"@) {
                        Some((value, s5)) => Some((name, value, s5)),
                        None => match spec_parse_attribute_value_quote(s4, "\""@) {
                            Some((value, s5)) => Some((name, value, s5)),
                            None => None,
                        },
                    }
                },
            }
        },
    }
}

/// A self-closing element: `<`, a name, required space, an optional
/// attribute, optional space, and `/>`.
pub open spec fn spec_parse_element(s: Seq<char>) -> Option<
    (Seq<char>, Option<(Seq<char>, Seq<char>)>, Seq<char>),
> {
    match spec_slice_literal(s, "<"@) {
        None => None,
        Some((_lt, s1)) => match spec_slice_name(s1) {
            None => None,
            Some((name, s2)) => match spec_slice_space(s2) {
                None => None,
                Some((_sp, s3)) => {
                    let step = match spec_parse_attribute(s3) {
                        Some((an, av, r)) => (Some((an, av)), r),
                        None => (None, s3),
                    };
                    let s5 = spec_optional_space(step.1);
                    match spec_slice_literal(s5, "/>"@) {
                        None => None,
                        Some((_end, s6)) => Some((name, step.0, s6)),
                    }
                },
            },
        },
    }
}

/// A whole document: a preamble and one element.
pub open spec fn spec_parse(s: Seq<char>) -> Option<(Seq<char>, Option<(Seq<char>, Seq<char>)>)> {
    match spec_parse_preamble(s) {
        None => None,
        Some(s1) => match spec_parse_element(s1) {
            None => None,
            Some((name, attr, _rest)) => Some((name, attr)),
        },
    }
}

/// A parsed attribute, borrowing its pieces from the input.
pub struct ParsedAttribute<'a> {
    pub name: &'a str,
    pub value: &'a str,
}

/// The recursive-descent parser.
pub struct Parser;

impl Parser {
    pub fn new() -> (r: Parser) {
        Parser
    }

    /// Everything after the preamble's closing `?>`.
    pub fn parse_preamble<'a>(&self, xml: &'a str) -> (r: Option<&'a str>)
        ensures
            match r {
                Some(t) => spec_parse_preamble(xml@) == Some(t@),
                None => spec_parse_preamble(xml@) is None,
            },
    {
        match slice_until(xml, "?>") {
            None => None,
            Some((_before, from)) => {
                proof {
                    lemma_find_in_range(xml@, "?>"@, 0);
                    assert("?>"@.len() == 2) by {
                        reveal_strlit("?>");
                    }
                    assert(from@.subrange(2, from@.len() as int) =~= xml@.subrange(
                        find_from(xml@, "?>"@, 0)->Some_0 + 2,
                        xml@.len() as int,
                    ));
                }
                let n: usize = from.unicode_len();
                Some(from.substring_char(2, n))
            },
        }
    }

    /// The input with any leading white space removed.
    pub fn optional_space<'a>(&self, xml: &'a str) -> (r: &'a str)
        ensures
            r@ == spec_optional_space(xml@),
    {
        match slice_space(xml) {
            Some((_space, rest)) => rest,
            None => xml,
        }
    }

    /// An attribute value in the given quotes, and what follows it.
    pub fn parse_attribute_value_quote<'a>(&self, xml: &'a str, quote: &str) -> (r: Option<
        (&'a str, &'a str),
    >)
        ensures
            match r {
                Some(p) => spec_parse_attribute_value_quote(xml@, quote@) matches Some(q) && p.0@
                    == q.0 && p.1@ == q.1,
                None => spec_parse_attribute_value_quote(xml@, quote@) is None,
            },
    {
        let (_q1, xml) = match slice_literal(xml, quote) {
            None => {
                return None;
            },
            Some(x) => x,
        };
        let (value, xml) = match slice_until(xml, quote) {
            None => {
                return None;
            },
            Some(x) => x,
        };
        let (_q2, xml) = match slice_literal(xml, quote) {
            None => {
                return None;
            },
            Some(x) => x,
        };
        Some((value, xml))
    }

    /// One attribute, and what follows it.
    pub fn parse_attribute<'a>(&self, xml: &'a str) -> (r: Option<(ParsedAttribute<'a>, &'a str)>)
        ensures
            match r {
                Some(p) => spec_parse_attribute(xml@) matches Some(q) && p.0.name@ == q.0
                    && p.0.value@ == q.1 && p.1@ == q.2,
                None => spec_parse_attribute(xml@) is None,
            },
    {
        let (name, xml) = match slice_name(xml) {
            None => {
                return None;
            },
            Some(x) => x,
        };
        let xml = self.optional_space(xml);
        let (_eq, xml) = match slice_literal(xml, "=") {
            None => {
                return None;
            },
            Some(x) => x,
        };
        let xml = self.optional_space(xml);
        match self.parse_attribute_value_quote(xml, "'") {
            Some((value, rest)) => Some((ParsedAttribute { name, value }, rest)),
            None => match self.parse_attribute_value_quote(xml, "\"") {
                Some((value, rest)) => Some((ParsedAttribute { name, value }, rest)),
                None => None,
            },
        }
    }

    /// One self-closing element, built with its attribute, and what follows.
    pub fn parse_element<'a>(&self, xml: &'a str) -> (r: Option<(Element, &'a str)>)
        ensures
            match r {
                Some(p) => spec_parse_element(xml@) matches Some(q) && p.0.name@ == q.0 && p.1@
                    == q.2 && (match q.1 {
                    Some(av) => p.0.attributes@.len() == 1 && p.0.attributes@[0].name@ == av.0
                        && p.0.attributes@[0].value@ == av.1,
                    None => p.0.attributes@.len() == 0,
                }),
                None => spec_parse_element(xml@) is None,
            },
    {
        let (_lt, xml) = match slice_literal(xml, "<") {
            None => {
                return None;
            },
            Some(x) => x,
        };
        let (name, xml) = match slice_name(xml) {
            None => {
                return None;
            },
            Some(x) => x,
        };
        let (_space, xml) = match slice_space(xml) {
            None => {
                return None;
            },
            Some(x) => x,
        };
        let mut element = Element::new(name.to_owned());
        let xml = match self.parse_attribute(xml) {
            None => xml,
            Some((attr, rest)) => {
                element.set_attribute(attr.name.to_owned(), attr.value.to_owned());
                rest
            },
        };
        let xml = self.optional_space(xml);
        let (_end, xml) = match slice_literal(xml, "/>") {
            None => {
                return None;
            },
            Some(x) => x,
        };
        Some((element, xml))
    }

    /// A whole document.
    pub fn parse(&self, xml: &str) -> (r: Option<Document>)
        ensures
            match spec_parse(xml@) {
                Some(q) => r matches Some(d) && d.root.children@.len() == 1 && (
                d.root.children@[0] matches crate::dom::RootChild::Element(e) && e.name@ == q.0 && (
                match q.1 {
                    Some(av) => e.attributes@.len() == 1 && e.attributes@[0].name@ == av.0
                        && e.attributes@[0].value@ == av.1,
                    None => e.attributes@.len() == 0,
                })),
                None => r is None,
            },
    {
        let after_preamble = match self.parse_preamble(xml) {
            None => {
                return None;
            },
            Some(x) => x,
        };
        let (element, _tail) = match self.parse_element(after_preamble) {
            None => {
                return None;
            },
            Some(x) => x,
        };
        let mut doc = Document::new();
        doc.root.append_child(element);
        Some(doc)
    }
}

} // verus!
