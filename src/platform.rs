use vstd::prelude::*;
use crate::detect::{contains_text, lines_of, occurs_in, text_lines};

verus! {

/// `text` without leading and trailing whitespace, as `str::trim` gives it.
pub uninterp spec fn trimmed_of(text: Seq<char>) -> Seq<char>;

/// Relies on str::trim: `text` without leading and trailing whitespace.
#[verifier::external_body]
fn trim_text(text: &str) -> (r: String)
    ensures
        r@ == trimmed_of(text@),
{
    text.trim().to_string()
}

/// `found` is the index of the first of `lines` in which `needle` occurs, `None` where it
/// occurs in none.
pub open spec fn first_line_with(lines: Seq<Seq<char>>, needle: Seq<char>, found: Option<int>) -> bool {
    match found {
        Some(i) => 0 <= i < lines.len() && occurs_in(needle, lines[i]) && forall|j: int|
            0 <= j < i ==> !occurs_in(needle, #[trigger] lines[j]),
        None => forall|j: int| 0 <= j < lines.len() ==> !occurs_in(needle, #[trigger] lines[j]),
    }
}

/// `part` is the second `sep`-separated part of `line` (the text between its first `sep` and
/// the next one, or the end), `None` where `line` has no `sep`.
pub open spec fn second_part(line: Seq<char>, sep: char, part: Option<Seq<char>>) -> bool {
    match part {
        None => forall|i: int| 0 <= i < line.len() ==> line[i] != sep,
        Some(p) => exists|k1: int, k2: int|
            {
                &&& 0 <= k1 < k2 <= line.len()
                &&& line[k1] == sep
                &&& (forall|i: int| 0 <= i < k1 ==> line[i] != sep)
                &&& (k2 == line.len() || line[k2] == sep)
                &&& (forall|i: int| k1 < i < k2 ==> line[i] != sep)
                &&& #[trigger] line.subrange(k1 + 1, k2) == p
            },
    }
}

/// `r` is `s` with every leading and trailing `"` removed.
pub open spec fn quotes_trimmed(s: Seq<char>, r: Seq<char>) -> bool {
    exists|a: int, b: int|
        {
            &&& 0 <= a <= b <= s.len()
            &&& (forall|i: int| 0 <= i < a ==> s[i] == '"')
            &&& (forall|i: int| b <= i < s.len() ==> s[i] == '"')
            &&& (a < b ==> s[a] != '"' && s[b - 1] != '"')
            &&& #[trigger] s.subrange(a, b) == r
        }
}

/// A value a platform tool printed: its text without surrounding whitespace.
pub fn platform_value(text: &str) -> (r: String)
    ensures
        r@ == trimmed_of(text@),
{
    trim_text(text)
}

/// The index of the first of `lines` that contains `needle`.
pub fn find_line(lines: &Vec<String>, needle: &str) -> (r: Option<usize>)
    ensures
        first_line_with(lines.deep_view(), needle@, match r {
            Some(i) => Some(i as int),
            None => None,
        }),
{
    let mut i: usize = 0;
    while i < lines.len()
        invariant
            i <= lines@.len(),
            forall|j: int| 0 <= j < i ==> !occurs_in(needle@, #[trigger] lines.deep_view()[j]),
        decreases lines@.len() - i,
    {
        assert(lines.deep_view()[i as int] == lines@[i as int]@);
        if contains_text(lines[i].as_str(), needle) {
            return Some(i);
        }
        i = i + 1;
    }
    None
}

/// The second `sep`-separated part of `line`, as `line.split(sep).nth(1)` gives it.
pub fn second_part_of(line: &str, sep: char) -> (r: Option<String>)
    ensures
        second_part(line@, sep, r.deep_view()),
{
    let len = line.unicode_len();
    let mut k1: usize = 0;
    while k1 < len && line.get_char(k1) != sep
        invariant
            len == line@.len(),
            k1 <= len,
            forall|i: int| 0 <= i < k1 ==> line@[i] != sep,
        decreases len - k1,
    {
        k1 = k1 + 1;
    }
    if k1 == len {
        return None;
    }
    let mut k2: usize = k1 + 1;
    while k2 < len && line.get_char(k2) != sep
        invariant
            len == line@.len(),
            k1 < k2 <= len,
            forall|i: int| k1 < i < k2 ==> line@[i] != sep,
        decreases len - k2,
    {
        k2 = k2 + 1;
    }
    let r = String::from_str(line.substring_char(k1 + 1, k2));
    assert(line@.subrange(k1 + 1, k2 as int) == r@);
    Some(r)
}

/// `s` with every leading and trailing `"` removed, as `s.trim_matches('"')` gives it.
pub fn trim_quotes(s: &str) -> (r: String)
    ensures
        quotes_trimmed(s@, r@),
{
    let len = s.unicode_len();
    let mut a: usize = 0;
    while a < len && s.get_char(a) == '"'
        invariant
            len == s@.len(),
            a <= len,
            forall|i: int| 0 <= i < a ==> s@[i] == '"',
        decreases len - a,
    {
        a = a + 1;
    }
    let mut b: usize = len;
    while b > a && s.get_char(b - 1) == '"'
        invariant
            len == s@.len(),
            a <= b <= len,
            forall|i: int| b <= i < len ==> s@[i] == '"',
        decreases b - a,
    {
        b = b - 1;
    }
    let r = String::from_str(s.substring_char(a, b));
    assert(s@.subrange(a as int, b as int) == r@);
    r
}

/// The platform UUID in `ioreg -rd1 -c IOPlatformExpertDevice` output: on the first line that
/// mentions `IOPlatformUUID`, the part after `=`, trimmed of whitespace and then of quotes.
pub fn ioreg_platform_uuid(output: &str) -> (r: Option<String>)
    ensures
        r is None <==> exists|found: Option<int>|
            #[trigger] first_line_with(lines_of(output@), "IOPlatformUUID"@, found) && (found is None
                || second_part(lines_of(output@)[found->Some_0], '=', None)),
        r matches Some(u) ==> exists|i: int, p: Seq<char>|
            {
                &&& #[trigger] first_line_with(lines_of(output@), "IOPlatformUUID"@, Some(i))
                &&& #[trigger] second_part(lines_of(output@)[i], '=', Some(p))
                &&& quotes_trimmed(trimmed_of(p), u@)
            },
{
    let lines = text_lines(output);
    let key = "IOPlatformUUID";
    match find_line(&lines, key) {
        None => {
            assert(first_line_with(lines_of(output@), key@, None));
            None
        },
        Some(i) => {
            assert(lines.deep_view()[i as int] == lines@[i as int]@);
            assert(first_line_with(lines_of(output@), key@, Some(i as int)));
            match second_part_of(lines[i].as_str(), '=') {
                None => None,
                Some(p) => {
                    let t = trim_text(p.as_str());
                    let u = trim_quotes(t.as_str());
                    proof {
                        if exists|found: Option<int>|
                            #[trigger] first_line_with(lines_of(output@), key@, found) && (found is None
                                || second_part(lines_of(output@)[found->Some_0], '=', None)) {
                            let found = choose|found: Option<int>|
                                #[trigger] first_line_with(lines_of(output@), key@, found) && (found
                                    is None || second_part(lines_of(output@)[found->Some_0], '=', None));
                            lemma_first_line_unique(lines_of(output@), key@, found, Some(i as int));
                            lemma_second_part_unique(lines@[i as int]@, '=', None, Some(p@));
                        }
                    }
                    Some(u)
                },
            }
        },
    }
}

/// The serial number in `system_profiler SPHardwareDataType` output: on the first line that
/// mentions `Serial Number`, the part after `:` (empty where there is none), trimmed.
pub fn profiler_serial(output: &str) -> (r: Option<String>)
    ensures
        r is None <==> first_line_with(lines_of(output@), "Serial Number"@, None),
        r matches Some(s) ==> exists|i: int, p: Option<Seq<char>>|
            {
                &&& #[trigger] first_line_with(lines_of(output@), "Serial Number"@, Some(i))
                &&& #[trigger] second_part(lines_of(output@)[i], ':', p)
                &&& s@ == trimmed_of(
                    match p {
                        Some(t) => t,
                        None => Seq::empty(),
                    },
                )
            },
{
    let lines = text_lines(output);
    let key = "Serial Number";
    match find_line(&lines, key) {
        None => None,
        Some(i) => {
            assert(lines.deep_view()[i as int] == lines@[i as int]@);
            proof {
                if first_line_with(lines_of(output@), key@, None) {
                    lemma_first_line_unique(lines_of(output@), key@, None, Some(i as int));
                }
            }
            let part = second_part_of(lines[i].as_str(), ':');
            let text = match part {
                Some(p) => p,
                None => String::new(),
            };
            Some(trim_text(text.as_str()))
        },
    }
}

proof fn lemma_first_line_unique(
    lines: Seq<Seq<char>>,
    needle: Seq<char>,
    a: Option<int>,
    b: Option<int>,
)
    requires
        first_line_with(lines, needle, a),
        first_line_with(lines, needle, b),
    ensures
        a == b,
{
    match (a, b) {
        (Some(i), Some(j)) => {
            if i < j {
                assert(!occurs_in(needle, lines[i]));
            } else if j < i {
                assert(!occurs_in(needle, lines[j]));
            }
        },
        (Some(i), None) => {
            assert(!occurs_in(needle, lines[i]));
        },
        (None, Some(j)) => {
            assert(!occurs_in(needle, lines[j]));
        },
        (None, None) => {},
    }
}

proof fn lemma_second_part_unique(line: Seq<char>, sep: char, a: Option<Seq<char>>, b: Option<Seq<char>>)
    requires
        second_part(line, sep, a),
        second_part(line, sep, b),
        a is None,
    ensures
        b is None,
{
    if b is Some {
        let (k1, k2) = choose|k1: int, k2: int|
            {
                &&& 0 <= k1 < k2 <= line.len()
                &&& line[k1] == sep
                &&& (forall|i: int| 0 <= i < k1 ==> line[i] != sep)
                &&& (k2 == line.len() || line[k2] == sep)
                &&& (forall|i: int| k1 < i < k2 ==> line[i] != sep)
                &&& #[trigger] line.subrange(k1 + 1, k2) == b->Some_0
            };
        assert(line[k1] != sep);
    }
}

} // verus!
