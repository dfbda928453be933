use vstd::prelude::*;

verus! {

/// One position of a pattern: a byte that must match exactly, or a wildcard
/// that matches any byte.
#[derive(Clone, Copy, Debug, PartialEq, Eq, Structural)]
pub enum PatByte {
    Exact(u8),
    Wildcard,
}

/// A fixed-length, non-empty byte template used to locate a known
/// instruction sequence in a buffer without symbols.
#[derive(Debug)]
pub struct Pattern {
    matchers: Vec<PatByte>,
}

impl View for Pattern {
    type V = Seq<PatByte>;

    closed spec fn view(&self) -> Seq<PatByte> {
        self.matchers@
    }
}

/// ASCII space, the token separator of the pattern notation.
pub open spec fn is_sep(b: u8) -> bool {
    b == 32
}

/// ASCII question mark, the wildcard marker of the pattern notation.
pub open spec fn is_wild_marker(b: u8) -> bool {
    b == 63
}

pub open spec fn is_hex_digit(b: u8) -> bool {
    (48 <= b <= 57) || (65 <= b <= 70) || (97 <= b <= 102)
}

/// The value of one hexadecimal digit.
pub open spec fn hex_val(b: u8) -> u8 {
    if 48 <= b <= 57 {
        (b - 48) as u8
    } else if 65 <= b <= 70 {
        (b - 55) as u8
    } else {
        (b - 87) as u8
    }
}

/// The pattern notation, read from position `i` on: tokens separated by
/// spaces, each token either a wildcard marker (`?` or `??`) or a two-digit
/// hexadecimal byte value. `None` when the text does not follow the grammar.
pub open spec fn spec_parse_from(s: Seq<u8>, i: int) -> Option<Seq<PatByte>>
    decreases s.len() - i
        when 0 <= i <= s.len()
{
    if i >= s.len() {
        Some(Seq::empty())
    } else if is_sep(s[i]) {
        spec_parse_from(s, i + 1)
    } else if is_wild_marker(s[i]) {
        let j = if i + 1 < s.len() && is_wild_marker(s[i + 1]) {
            i + 2
        } else {
            i + 1
        };
        if j == s.len() || is_sep(s[j]) {
            match spec_parse_from(s, j) {
                Some(rest) => Some(seq![PatByte::Wildcard] + rest),
                None => None,
            }
        } else {
            None
        }
    } else if is_hex_digit(s[i]) && i + 1 < s.len() && is_hex_digit(s[i + 1]) && (i + 2 == s.len()
        || is_sep(s[i + 2])) {
        match spec_parse_from(s, i + 2) {
            Some(rest) => Some(
                seq![PatByte::Exact((hex_val(s[i]) * 16 + hex_val(s[i + 1])) as u8)] + rest,
            ),
            None => None,
        }
    } else {
        None
    }
}

fn hex_digit_value(b: u8) -> (v: u8)
    requires
        is_hex_digit(b),
    ensures
        v == hex_val(b),
{
    if 48 <= b && b <= 57 {
        b - 48
    } else if 65 <= b && b <= 70 {
        b - 55
    } else {
        b - 87
    }
}

fn parse_from(s: &[u8], i: usize) -> (r: Option<Vec<PatByte>>)
    requires
        i <= s@.len(),
    ensures
        match r {
            Some(v) => spec_parse_from(s@, i as int) == Some(v@),
            None => spec_parse_from(s@, i as int) is None,
        },
    decreases s@.len() - i,
{
    if i >= s.len() {
        Some(Vec::new())
    } else if s[i] == 32 {
        parse_from(s, i + 1)
    } else if s[i] == 63 {
        let j = if i + 1 < s.len() && s[i + 1] == 63 {
            i + 2
        } else {
            i + 1
        };
        if j == s.len() || s[j] == 32 {
            match parse_from(s, j) {
                Some(mut rest) => {
                    let ghost rest0 = rest@;
                    rest.insert(0, PatByte::Wildcard);
                    proof {
                        assert(rest@ =~= seq![PatByte::Wildcard] + rest0);
                    }
                    Some(rest)
                },
                None => None,
            }
        } else {
            None
        }
    } else if (48 <= s[i] && s[i] <= 57) || (65 <= s[i] && s[i] <= 70) || (97 <= s[i] && s[i]
        <= 102) {
        if i + 1 < s.len() && ((48 <= s[i + 1] && s[i + 1] <= 57) || (65 <= s[i + 1] && s[i + 1]
            <= 70) || (97 <= s[i + 1] && s[i + 1] <= 102)) && (i + 2 == s.len() || s[i + 2] == 32) {
            let b: u8 = hex_digit_value(s[i]) * 16 + hex_digit_value(s[i + 1]);
            match parse_from(s, i + 2) {
                Some(mut rest) => {
                    let ghost rest0 = rest@;
                    rest.insert(0, PatByte::Exact(b));
                    proof {
                        assert(rest@ =~= seq![PatByte::Exact(b)] + rest0);
                    }
                    Some(rest)
                },
                None => None,
            }
        } else {
            None
        }
    } else {
        None
    }
}

impl Pattern {
    /// Parses the textual pattern notation. `None` when the text does not
    /// follow the grammar or denotes an empty pattern.
    pub fn parse(s: &[u8]) -> (r: Option<Pattern>)
        ensures
            match r {
                Some(p) => spec_parse_from(s@, 0) == Some(p@) && p@.len() > 0,
                None => spec_parse_from(s@, 0) is None || spec_parse_from(s@, 0) == Some(
                    Seq::<PatByte>::empty(),
                ),
            },
    {
        match parse_from(s, 0) {
            Some(matchers) => {
                if matchers.len() > 0 {
                    Some(Pattern { matchers })
                } else {
                    proof {
                        assert(matchers@ =~= Seq::<PatByte>::empty());
                    }
                    None
                }
            },
            None => None,
        }
    }

    /// Builds a pattern directly from its matchers; `None` when they are
    /// empty, since a pattern's length must be non-zero.
    pub fn from_matchers(matchers: Vec<PatByte>) -> (r: Option<Pattern>)
        ensures
            match r {
                Some(p) => p@ == matchers@ && matchers@.len() > 0,
                None => matchers@.len() == 0,
            },
    {
        if matchers.len() > 0 {
            Some(Pattern { matchers })
        } else {
            None
        }
    }

    pub fn len(&self) -> (n: usize)
        ensures
            n == self@.len(),
    {
        self.matchers.len()
    }

    pub fn matcher_at(&self, i: usize) -> (m: PatByte)
        requires
            i < self@.len(),
        ensures
            m == self@[i as int],
    {
        self.matchers[i]
    }
}

} // verus!
