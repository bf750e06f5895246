//! Character-level helpers over strings.
use vstd::prelude::*;
use vstd::string::*;

verus! {

/// The characters of `s`, in order.
pub fn chars_of(s: &str) -> (r: Vec<char>)
    ensures
        r@ == s@,
{
    let mut r: Vec<char> = Vec::new();
    for c in it: s.chars()
        invariant
            r@ == it.seq().take(it.index() as int),
    {
        r.push(c);
    }
    r
}

/// The escape character, which starts a terminal control sequence.
pub const ESCAPE: char = '\u{1b}';

/// The visible symbol that stands in a listing for the escape character.
pub const ESCAPE_SYMBOL: char = '\u{241b}';

/// Whether `s` holds no escape character.
pub open spec fn escape_free(s: Seq<char>) -> bool {
    !s.contains(ESCAPE)
}

/// `s` with each escape character shown as its visible symbol.
pub open spec fn escapes_shown(s: Seq<char>) -> Seq<char> {
    s.map_values(|c: char| if c == ESCAPE { ESCAPE_SYMBOL } else { c })
}

/// Showing escapes leaves none.
pub proof fn lemma_escapes_shown_free(s: Seq<char>)
    ensures
        escape_free(escapes_shown(s)),
{
    let t = escapes_shown(s);
    if t.contains(ESCAPE) {
        let i = choose|i: int| 0 <= i < t.len() && t[i] == ESCAPE;
        assert(t[i] == (if s[i] == ESCAPE { ESCAPE_SYMBOL } else { s[i] }));
    }
}

/// `s` with each escape character replaced by its visible symbol, so that
/// the text can stand in a table without starting a control sequence.
pub fn show_escapes(s: &str) -> (r: String)
    ensures
        r@ == escapes_shown(s@),
        escape_free(r@),
{
    proof {
        reveal_strlit("\u{241b}");
    }
    let cs = chars_of(s);
    let mut r = String::new();
    let mut start: usize = 0;
    let mut i: usize = 0;
    while i < cs.len()
        invariant
            0 <= start <= i <= cs.len(),
            cs@ == s@,
            "\u{241b}"@ == seq![ESCAPE_SYMBOL],
            r@ == escapes_shown(s@.subrange(0, start as int)),
            forall|j: int| start <= j < i ==> cs@[j] != ESCAPE,
        decreases cs.len() - i,
    {
        if cs[i] == ESCAPE {
            let part = s.substring_char(start, i);
            r.append(part);
            r.append("\u{241b}");
            assert(escapes_shown(s@.subrange(0, i + 1)) =~= escapes_shown(
                s@.subrange(0, start as int),
            ) + s@.subrange(start as int, i as int) + seq![ESCAPE_SYMBOL]);
            start = i + 1;
        }
        i = i + 1;
    }
    let rest = s.substring_char(start, cs.len());
    r.append(rest);
    assert(s@.subrange(0, cs.len() as int) =~= s@);
    assert(escapes_shown(s@) =~= escapes_shown(s@.subrange(0, start as int)) + s@.subrange(
        start as int,
        cs.len() as int,
    ));
    proof {
        lemma_escapes_shown_free(s@);
    }
    r
}

} // verus!
