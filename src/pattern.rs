use vstd::prelude::*;

use crate::text::views_of;

verus! {

/// The characters that carry meaning in regex syntax and are escaped with a
/// backslash to stand for themselves.
pub open spec fn is_meta(c: char) -> bool {
    c == '\\' || c == '.' || c == '+' || c == '*' || c == '?' || c == '(' || c == ')'
        || c == '|' || c == '[' || c == ']' || c == '{' || c == '}' || c == '^' || c == '$'
        || c == '#' || c == '&' || c == '-' || c == '~'
}

/// `s` with a backslash put before each meta character: a regex that
/// matches `s` literally.
pub open spec fn escaped(s: Seq<char>) -> Seq<char>
    decreases s.len(),
{
    if s.len() == 0 {
        Seq::empty()
    } else {
        let head = if is_meta(s[0]) {
            seq!['\\', s[0]]
        } else {
            seq![s[0]]
        };
        head + escaped(s.drop_first())
    }
}

/// The parts one after another, with `sep` between each two neighbours.
pub open spec fn joined(parts: Seq<Seq<char>>, sep: Seq<char>) -> Seq<char>
    decreases parts.len(),
{
    if parts.len() == 0 {
        Seq::empty()
    } else if parts.len() == 1 {
        parts[0]
    } else {
        parts[0] + sep + joined(parts.drop_first(), sep)
    }
}

/// The regex that matches wherever one of the literals occurs: the escaped
/// literals, joined by the alternation bar.
pub open spec fn alternation(literals: Seq<Seq<char>>) -> Seq<char> {
    joined(literals.map_values(|l: Seq<char>| escaped(l)), seq!['|'])
}

/// Relies on `regex::escape`: each meta character gets a backslash before
/// it, every other character is kept, in order.
#[verifier::external_body]
fn escape_literal(s: &str) -> (r: String)
    ensures
        r@ == escaped(s@),
{
    regex::escape(s)
}

/// Relies on `Itertools::intersperse`, collected into one string: the parts
/// in order, with a copy of `sep` between each two neighbours.
#[verifier::external_body]
fn intersperse_parts(parts: Vec<String>, sep: String) -> (r: String)
    ensures
        r@ == joined(views_of(parts@), sep@),
{
    itertools::Itertools::intersperse(parts.into_iter(), sep).collect()
}

/// The regex pattern text that matches exactly where one of the reference
/// lines occurs literally.
pub fn alternation_pattern(references: &[String]) -> (r: String)
    ensures
        r@ == alternation(views_of(references@)),
{
    let ghost refs = views_of(references@);
    let ghost esc = refs.map_values(|l: Seq<char>| escaped(l));
    let mut parts: Vec<String> = Vec::new();
    let mut i: usize = 0;
    while i < references.len()
        invariant
            0 <= i <= references@.len(),
            refs == views_of(references@),
            esc == refs.map_values(|l: Seq<char>| escaped(l)),
            views_of(parts@) == esc.take(i as int),
        decreases references@.len() - i,
    {
        let part = escape_literal(references[i].as_str());
        let ghost before = views_of(parts@);
        parts.push(part);
        proof {
            assert(refs[i as int] == references@[i as int]@);
            assert(esc[i as int] == escaped(refs[i as int]));
            assert(views_of(parts@) =~= before.push(part@));
            assert(esc.take(i as int + 1) =~= esc.take(i as int).push(esc[i as int]));
        }
        i = i + 1;
    }
    assert(esc.take(references@.len() as int) =~= esc);
    let sep = String::from_str("|");
    proof {
        reveal_strlit("|");
        assert(sep@ =~= seq!['|']);
    }
    intersperse_parts(parts, sep)
}

} // verus!
