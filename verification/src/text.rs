//! Small operations on texts, seen as sequences of characters.

use vstd::prelude::*;

verus! {

/// The characters of `text`, in order.
pub fn chars_of(text: &str) -> (chars: Vec<char>)
    ensures
        chars@ == text@,
{
    broadcast use vstd::string::axiom_spec_iter;

    let mut chars: Vec<char> = Vec::new();
    for c in it: text.chars()
        invariant
            it.seq() == text@,
            chars@ == it.seq().take(it.index()),
    {
        chars.push(c);
        assert(it.seq().take(it.index() + 1) =~= it.seq().take(it.index()).push(c));
    }
    assert(chars@ =~= text@);
    chars
}

/// Whether `pattern` stands in `s` at position `at`.
pub open spec fn occurs_at(s: Seq<char>, pattern: Seq<char>, at: int) -> bool {
    &&& 0 <= at
    &&& at + pattern.len() <= s.len()
    &&& forall|j: int| 0 <= j < pattern.len() ==> s[at + j] == pattern[j]
}

/// The first position at or after `from` at which `pattern` stands in `s`.
pub open spec fn first_occurrence_from(s: Seq<char>, pattern: Seq<char>, from: int) -> Option<int>
    decreases s.len() - from,
{
    if from < 0 || from + pattern.len() > s.len() {
        None
    } else if occurs_at(s, pattern, from) {
        Some(from)
    } else {
        first_occurrence_from(s, pattern, from + 1)
    }
}

/// The first position at which `pattern` stands in `s`.
pub open spec fn first_occurrence(s: Seq<char>, pattern: Seq<char>) -> Option<int> {
    first_occurrence_from(s, pattern, 0)
}

/// What `first_occurrence_from` finds is an occurrence with none before it,
/// and it finds one wherever there is one.
pub proof fn lemma_first_occurrence(s: Seq<char>, pattern: Seq<char>, from: int)
    requires
        0 <= from,
    ensures
        match first_occurrence_from(s, pattern, from) {
            Some(at) => from <= at && occurs_at(s, pattern, at) && forall|i: int|
                from <= i < at ==> !occurs_at(s, pattern, i),
            None => forall|i: int| from <= i ==> !occurs_at(s, pattern, i),
        },
    decreases s.len() - from,
{
    if from + pattern.len() > s.len() {
    } else if occurs_at(s, pattern, from) {
    } else {
        lemma_first_occurrence(s, pattern, from + 1);
    }
}

/// Tests whether `pattern` stands in `chars` at position `at`.
pub fn matches_at(chars: &Vec<char>, pattern: &Vec<char>, at: usize) -> (found: bool)
    ensures
        found == occurs_at(chars@, pattern@, at as int),
{
    if pattern.len() > chars.len() || at > chars.len() - pattern.len() {
        return false;
    }
    let mut k: usize = 0;
    while k < pattern.len()
        invariant
            k <= pattern.len(),
            at + pattern.len() <= chars.len(),
            forall|j: int| 0 <= j < k ==> chars@[at + j] == pattern@[j],
        decreases pattern.len() - k,
    {
        if chars[at + k] != pattern[k] {
            return false;
        }
        k += 1;
    }
    true
}

/// Finds the first position at or after `from` at which `pattern` stands in
/// `chars`.
pub fn find_from(chars: &Vec<char>, pattern: &Vec<char>, from: usize) -> (found: Option<usize>)
    ensures
        match found {
            Some(at) => first_occurrence_from(chars@, pattern@, from as int) == Some(at as int),
            None => first_occurrence_from(chars@, pattern@, from as int) is None,
        },
{
    if pattern.len() > chars.len() {
        return None;
    }
    let last: usize = chars.len() - pattern.len();
    let mut i: usize = from;
    while i <= last
        invariant
            from <= i,
            pattern.len() <= chars.len(),
            last == chars.len() - pattern.len(),
            first_occurrence_from(chars@, pattern@, from as int) == first_occurrence_from(
                chars@,
                pattern@,
                i as int,
            ),
        decreases last + 1 - i,
    {
        if matches_at(chars, pattern, i) {
            return Some(i);
        }
        i += 1;
    }
    None
}

/// A class of characters that can be trimmed off a text.
#[derive(Clone, Copy, Debug, PartialEq, Eq, Structural)]
pub enum CharClass {
    /// The hyphen.
    Hyphen,
    /// The characters with the Unicode property `White_Space`.
    Whitespace,
}

/// Whether `c` has the Unicode property `White_Space`.
pub open spec fn is_white_space(c: char) -> bool {
    let u = c as u32;
    (0x09 <= u <= 0x0D) || u == 0x20 || u == 0x85 || u == 0xA0 || u == 0x1680 || (0x2000 <= u
        <= 0x200A) || u == 0x2028 || u == 0x2029 || u == 0x202F || u == 0x205F || u == 0x3000
}

impl CharClass {
    /// Whether `c` belongs to the class.
    pub open spec fn holds(self, c: char) -> bool {
        match self {
            CharClass::Hyphen => c == '-',
            CharClass::Whitespace => is_white_space(c),
        }
    }

    /// Tests whether `c` belongs to the class.
    pub fn has(&self, c: char) -> (r: bool)
        ensures
            r == self.holds(c),
    {
        match self {
            CharClass::Hyphen => c == '-',
            CharClass::Whitespace => {
                let u: u32 = c as u32;
                (0x09 <= u && u <= 0x0D) || u == 0x20 || u == 0x85 || u == 0xA0 || u == 0x1680 || (
                0x2000 <= u && u <= 0x200A) || u == 0x2028 || u == 0x2029 || u == 0x202F || u
                    == 0x205F || u == 0x3000
            },
        }
    }
}

/// `s` without the characters of `class` at its start.
pub open spec fn without_leading(s: Seq<char>, class: CharClass) -> Seq<char>
    decreases s.len(),
{
    if s.len() > 0 && class.holds(s.first()) {
        without_leading(s.drop_first(), class)
    } else {
        s
    }
}

/// `s` without the characters of `class` at its end.
pub open spec fn without_trailing(s: Seq<char>, class: CharClass) -> Seq<char>
    decreases s.len(),
{
    if s.len() > 0 && class.holds(s.last()) {
        without_trailing(s.drop_last(), class)
    } else {
        s
    }
}

/// `s` without the characters of `class` at its start and at its end.
pub open spec fn trimmed(s: Seq<char>, class: CharClass) -> Seq<char> {
    without_trailing(without_leading(s, class), class)
}

/// Trims the part of `chars` from `lo` to `hi - 1`: the result is the range
/// of positions that is left.
pub fn trim_bounds(chars: &Vec<char>, lo: usize, hi: usize, class: CharClass) -> (bounds: (
    usize,
    usize,
))
    requires
        lo <= hi <= chars@.len(),
    ensures
        lo <= bounds.0 <= bounds.1 <= hi,
        chars@.subrange(bounds.0 as int, bounds.1 as int) == trimmed(
            chars@.subrange(lo as int, hi as int),
            class,
        ),
{
    let ghost part = chars@.subrange(lo as int, hi as int);
    let mut start: usize = lo;
    while start < hi && class.has(chars[start])
        invariant
            lo <= start <= hi <= chars@.len(),
            without_leading(part, class) == without_leading(
                chars@.subrange(start as int, hi as int),
                class,
            ),
        decreases hi - start,
    {
        assert(chars@.subrange(start as int, hi as int).drop_first() =~= chars@.subrange(
            start + 1,
            hi as int,
        ));
        start += 1;
    }
    assert(without_leading(part, class) == chars@.subrange(start as int, hi as int));
    let mut end: usize = hi;
    while end > start && class.has(chars[end - 1])
        invariant
            start <= end <= hi <= chars@.len(),
            trimmed(part, class) == without_trailing(
                chars@.subrange(start as int, end as int),
                class,
            ),
        decreases end - start,
    {
        assert(chars@.subrange(start as int, end as int).drop_last() =~= chars@.subrange(
            start as int,
            end - 1,
        ));
        end -= 1;
    }
    (start, end)
}

/// `text` without the characters of `class` at its start and at its end.
pub fn trim_matches(text: &str, class: CharClass) -> (rest: String)
    ensures
        rest@ == trimmed(text@, class),
{
    let chars = chars_of(text);
    assert(chars@.subrange(0, chars@.len() as int) =~= text@);
    let (start, end) = trim_bounds(&chars, 0, chars.len(), class);
    text.substring_char(start, end).to_owned()
}

} // verus!
