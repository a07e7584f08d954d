//! Character-level string operations used by the inflection logic.

use vstd::prelude::*;

verus! {

/// `s` cut at every occurrence of `sep`, as `str::split` with a `char` pattern
/// does: an empty text gives one empty piece, and a separator at either end
/// gives an empty piece there.
pub open spec fn split_on(s: Seq<char>, sep: char) -> Seq<Seq<char>>
    decreases s.len(),
{
    if s.len() == 0 {
        seq![Seq::<char>::empty()]
    } else {
        let prev = split_on(s.drop_last(), sep);
        if s.last() == sep {
            prev.push(Seq::<char>::empty())
        } else {
            prev.update(prev.len() - 1, prev.last().push(s.last()))
        }
    }
}

/// Every text splits into at least one piece.
pub proof fn lemma_split_on_nonempty(s: Seq<char>, sep: char)
    ensures
        split_on(s, sep).len() >= 1,
    decreases s.len(),
{
    if s.len() > 0 {
        lemma_split_on_nonempty(s.drop_last(), sep);
    }
}

/// The text with every `from` replaced by `to`.
pub open spec fn replace_char(s: Seq<char>, from: char, to: char) -> Seq<char> {
    s.map_values(|c: char| if c == from { to } else { c })
}

/// Whether two texts hold the same characters.
pub fn text_equals(a: &str, b: &str) -> (r: bool)
    ensures
        r == (a@ == b@),
{
    let x = String::from_str(a);
    let y = String::from_str(b);
    x == y
}

/// Splits `s` at every `sep`, keeping empty pieces.
pub fn split_text(s: &str, sep: char) -> (pieces: Vec<String>)
    ensures
        pieces.deep_view() == split_on(s@, sep),
{
    let n = s.unicode_len();
    let mut pieces: Vec<String> = Vec::new();
    let mut start: usize = 0;
    let mut i: usize = 0;
    assert(s@.take(0) =~= Seq::<char>::empty());
    assert(pieces.deep_view().push(s@.subrange(0, 0)) =~= seq![Seq::<char>::empty()]);
    while i < n
        invariant
            n == s@.len(),
            start <= i <= n,
            pieces.deep_view().push(s@.subrange(start as int, i as int)) == split_on(
                s@.take(i as int),
                sep,
            ),
        decreases n - i,
    {
        let c = s.get_char(i);
        let ghost prev = s@.take(i as int);
        assert(s@.take(i + 1).drop_last() =~= prev);
        assert(s@.take(i + 1).last() == c);
        if c == sep {
            let piece = String::from_str(s.substring_char(start, i));
            let ghost before = pieces.deep_view();
            pieces.push(piece);
            assert(pieces.deep_view() =~= before.push(s@.subrange(start as int, i as int)));
            start = i + 1;
            assert(s@.subrange(start as int, (i + 1) as int) =~= Seq::<char>::empty());
        } else {
            assert(s@.subrange(start as int, (i + 1) as int) =~= s@.subrange(
                start as int,
                i as int,
            ).push(c));
        }
        i = i + 1;
    }
    let piece = String::from_str(s.substring_char(start, n));
    let ghost before = pieces.deep_view();
    pieces.push(piece);
    assert(pieces.deep_view() =~= before.push(s@.subrange(start as int, n as int)));
    assert(s@.take(n as int) =~= s@);
    pieces
}


/// `s` with every space turned into an underscore.
pub fn replace_spaces_with_underscores(s: &str) -> (r: String)
    ensures
        r@ == replace_char(s@, ' ', '_'),
{
    let n = s.unicode_len();
    let mut r = String::new();
    let mut start: usize = 0;
    let mut i: usize = 0;
    proof {
        reveal_strlit("_");
    }
    while i < n
        invariant
            n == s@.len(),
            start <= i <= n,
            r@ == replace_char(s@.take(start as int), ' ', '_'),
            forall|k: int| start <= k < i ==> s@[k] != ' ',
            "_"@ == seq!['_'],
        decreases n - i,
    {
        let c = s.get_char(i);
        if c == ' ' {
            r.append(s.substring_char(start, i));
            r.append("_");
            assert(r@ =~= replace_char(s@.take((i + 1) as int), ' ', '_'));
            start = i + 1;
        }
        i = i + 1;
    }
    r.append(s.substring_char(start, n));
    assert(r@ =~= replace_char(s@, ' ', '_'));
    r
}


/// Unicode's `White_Space` property, the white space that
/// `str::trim` removes.
pub open spec fn is_white_space(c: char) -> bool {
    ||| '\u{9}' <= c <= '\u{d}'
    ||| c == ' '
    ||| c == '\u{85}'
    ||| c == '\u{a0}'
    ||| c == '\u{1680}'
    ||| '\u{2000}' <= c <= '\u{200a}'
    ||| c == '\u{2028}'
    ||| c == '\u{2029}'
    ||| c == '\u{202f}'
    ||| c == '\u{205f}'
    ||| c == '\u{3000}'
}

/// Whether `c` is white space (Unicode `White_Space`), as `char::is_whitespace` says.
pub fn is_whitespace_char(c: char) -> (b: bool)
    ensures
        b == is_white_space(c),
{
    match c {
        '\u{9}'..='\u{d}' | ' ' | '\u{85}' | '\u{a0}' | '\u{1680}' => true,
        '\u{2000}'..='\u{200a}' | '\u{2028}' | '\u{2029}' | '\u{202f}' | '\u{205f}' => true,
        '\u{3000}' => true,
        _ => false,
    }
}

/// Whether every character of `s` is white space, so that `s.trim()` is empty.
pub open spec fn is_blank(s: Seq<char>) -> bool {
    forall|k: int| 0 <= k < s.len() ==> is_white_space(#[trigger] s[k])
}

/// Whether `s` holds nothing but white space.
pub fn text_is_blank(s: &str) -> (r: bool)
    ensures
        r == is_blank(s@),
{
    let n = s.unicode_len();
    let mut i: usize = 0;
    while i < n
        invariant
            n == s@.len(),
            i <= n,
            forall|k: int| 0 <= k < i ==> is_white_space(#[trigger] s@[k]),
        decreases n - i,
    {
        if !is_whitespace_char(s.get_char(i)) {
            return false;
        }
        i = i + 1;
    }
    true
}


/// The pieces put back together with `sep` between neighbours.
pub open spec fn join_with(pieces: Seq<Seq<char>>, sep: char) -> Seq<char>
    decreases pieces.len(),
{
    if pieces.len() == 0 {
        Seq::<char>::empty()
    } else if pieces.len() == 1 {
        pieces[0]
    } else {
        join_with(pieces.drop_last(), sep).push(sep) + pieces.last()
    }
}

/// Splitting loses nothing: joining the pieces with the separator gives the
/// text back, and no piece holds the separator.
pub proof fn lemma_split_then_join(s: Seq<char>, sep: char)
    ensures
        join_with(split_on(s, sep), sep) == s,
        forall|i: int, k: int|
            0 <= i < split_on(s, sep).len() && 0 <= k < split_on(s, sep)[i].len() ==> #[trigger] split_on(
                s,
                sep,
            )[i][k] != sep,
    decreases s.len(),
{
    if s.len() == 0 {
        assert(join_with(split_on(s, sep), sep) =~= s);
    } else {
        let prev = split_on(s.drop_last(), sep);
        lemma_split_then_join(s.drop_last(), sep);
        lemma_split_on_nonempty(s.drop_last(), sep);
        let pieces = split_on(s, sep);
        if s.last() == sep {
            assert(pieces.drop_last() =~= prev);
            assert(join_with(pieces, sep) =~= s);
            assert forall|i: int, k: int|
                0 <= i < pieces.len() && 0 <= k < pieces[i].len() implies #[trigger] pieces[i][k]
                != sep by {
                if i < pieces.len() - 1 {
                    assert(pieces[i] == prev[i]);
                }
            }
        } else {
            let last = prev.last().push(s.last());
            assert(pieces =~= prev.update(prev.len() - 1, last));
            if prev.len() == 1 {
                assert(join_with(pieces, sep) =~= s);
            } else {
                assert(pieces.drop_last() =~= prev.drop_last());
                let head = join_with(prev.drop_last(), sep).push(sep);
                assert(join_with(prev, sep) == head + prev.last());
                assert(join_with(pieces, sep) == head + last);
                assert(head + last =~= (head + prev.last()).push(s.last()));
                assert(s =~= s.drop_last().push(s.last()));
            }
            assert forall|i: int, k: int|
                0 <= i < pieces.len() && 0 <= k < pieces[i].len() implies #[trigger] pieces[i][k]
                != sep by {
                if i < pieces.len() - 1 {
                    assert(pieces[i] == prev[i]);
                } else if k < pieces[i].len() - 1 {
                    assert(pieces[i][k] == prev[i][k]);
                }
            }
        }
    }
}

/// Turning spaces into underscores keeps the length, leaves no space, and
/// changes nothing but spaces.
pub proof fn lemma_replace_spaces(s: Seq<char>)
    ensures
        replace_char(s, ' ', '_').len() == s.len(),
        forall|k: int| 0 <= k < s.len() ==> #[trigger] replace_char(s, ' ', '_')[k] != ' ',
        forall|k: int|
            0 <= k < s.len() && s[k] != ' ' ==> #[trigger] replace_char(s, ' ', '_')[k] == s[k],
        forall|k: int|
            0 <= k < s.len() && s[k] == ' ' ==> #[trigger] replace_char(s, ' ', '_')[k] == '_',
{
}

} // verus!
