use vstd::prelude::*;
use vstd::utf8::{decode_utf8, valid_utf8};

verus! {

/// The pieces of `s` between the occurrences of `sep`, in order: one more
/// piece than `s` holds separators, the empty ones included.
pub open spec fn split_on(s: Seq<char>, sep: char) -> Seq<Seq<char>>
    decreases s.len(),
{
    if s.len() == 0 {
        seq![Seq::empty()]
    } else {
        let rest = split_on(s.drop_first(), sep);
        if s[0] == sep {
            seq![Seq::<char>::empty()] + rest
        } else {
            seq![seq![s[0]] + rest[0]] + rest.drop_first()
        }
    }
}

/// Which pieces of a reference text count as reference lines: the non-empty ones.
pub open spec fn is_line() -> spec_fn(Seq<char>) -> bool {
    |p: Seq<char>| p.len() > 0
}

/// The reference lines of a text: its `'\n'`-separated pieces without the
/// empty ones, in file order, duplicates kept.
pub open spec fn reference_lines(s: Seq<char>) -> Seq<Seq<char>> {
    split_on(s, '\n').filter(is_line())
}

/// The characters that a list of strings holds.
pub open spec fn views_of(v: Seq<String>) -> Seq<Seq<char>> {
    v.map_values(|s: String| s@)
}

/// Why the reference text could not be had.
#[derive(Debug, Clone, Copy, PartialEq, Eq)]
pub enum LoadError {
    /// The bytes are not well-formed UTF-8.
    NotText,
}

/// Relies on `str::split` with a `char` pattern: the pieces between the
/// occurrences of the separator, in order, empty pieces included.
#[verifier::external_body]
fn split_pieces(s: &str, sep: char) -> (r: Vec<String>)
    ensures
        views_of(r@) == split_on(s@, sep),
{
    s.split(sep).map(String::from).collect()
}

/// Relies on `String::from_utf8`: it succeeds exactly on well-formed UTF-8,
/// and then holds the characters that the bytes encode.
#[verifier::external_body]
fn decode_text(bytes: Vec<u8>) -> (r: Option<String>)
    ensures
        r is Some <==> valid_utf8(bytes@),
        r matches Some(s) ==> s@ == decode_utf8(bytes@),
{
    String::from_utf8(bytes).ok()
}

/// Splits a reference text into its reference lines: the pieces between
/// `'\n'` characters, the empty ones dropped. Nothing is trimmed, so a `'\r'`
/// before a `'\n'` stays part of its line.
pub fn parse_reference_lines(contents: &str) -> (r: Vec<String>)
    ensures
        views_of(r@) == reference_lines(contents@),
{
    let pieces = split_pieces(contents, '\n');
    let ghost all = split_on(contents@, '\n');
    let mut out: Vec<String> = Vec::new();
    let mut i: usize = 0;
    while i < pieces.len()
        invariant
            0 <= i <= pieces@.len(),
            views_of(pieces@) == all,
            views_of(out@) == all.take(i as int).filter(is_line()),
        decreases pieces@.len() - i,
    {
        let piece = &pieces[i];
        let ghost before = views_of(out@);
        proof {
            assert(views_of(pieces@)[i as int] == pieces@[i as int]@);
            assert(all[i as int] == piece@);
            assert(all.take(i as int + 1) =~= all.take(i as int).push(piece@));
            all.take(i as int).lemma_filter_push(piece@, is_line());
        }
        if !piece.as_str().is_empty() {
            out.push(piece.clone());
            assert(views_of(out@) =~= before.push(piece@));
        }
        i = i + 1;
    }
    assert(all.take(pieces@.len() as int) =~= all);
    out
}

/// Decodes the bytes of a reference file as text and splits them into
/// reference lines; fails when the bytes are not well-formed UTF-8.
pub fn load_reference_lines(bytes: Vec<u8>) -> (r: Result<Vec<String>, LoadError>)
    ensures
        r is Ok <==> valid_utf8(bytes@),
        r matches Ok(lines) ==> views_of(lines@) == reference_lines(decode_utf8(bytes@)),
        r matches Err(e) ==> e == LoadError::NotText,
{
    match decode_text(bytes) {
        Some(contents) => Ok(parse_reference_lines(contents.as_str())),
        None => Err(LoadError::NotText),
    }
}

} // verus!
