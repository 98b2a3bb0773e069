use vstd::prelude::*;

verus! {

/// `part` stands in `text` from position `at` on.
pub open spec fn stands_at(part: Seq<char>, text: Seq<char>, at: int) -> bool {
    0 <= at && at + part.len() <= text.len() && text.subrange(at, at + part.len()) == part
}

/// `part` stands somewhere in `text`.
pub open spec fn occurs_in(part: Seq<char>, text: Seq<char>) -> bool {
    exists|at: int| stands_at(part, text, at)
}

/// Tells whether `part` stands somewhere in `text`.
pub fn contains(text: &str, part: &str) -> (found: bool)
    ensures
        found == occurs_in(part@, text@),
        found <==> exists|before: Seq<char>, after: Seq<char>|
            text@ == #[trigger] (before + part@ + after),
{
    proof {
        law_part_stands_between_the_rest(part@, text@);
    }
    let text_chars: Vec<char> = chars_of(text);
    let part_chars: Vec<char> = chars_of(part);
    if part_chars.len() > text_chars.len() {
        return false;
    }
    let last: usize = text_chars.len() - part_chars.len();
    let mut at: usize = 0;
    loop
        invariant
            text_chars@ == text@,
            part_chars@ == part@,
            last + part_chars@.len() == text_chars@.len(),
            at <= last,
            forall|i: int| 0 <= i < at ==> !stands_at(part@, text@, i),
        decreases last - at,
    {
        proof {
            law_part_stands_between_the_rest(part@, text@);
        }
        if matches_at(&part_chars, &text_chars, at) {
            return true;
        }
        if at == last {
            assert(forall|i: int| !stands_at(part@, text@, i));
            return false;
        }
        at = at + 1;
    }
}

fn matches_at(part: &Vec<char>, text: &Vec<char>, at: usize) -> (same: bool)
    requires
        at + part@.len() <= text@.len(),
    ensures
        same == stands_at(part@, text@, at as int),
{
    let text_len: usize = text.len();
    let mut next: usize = 0;
    while next < part.len()
        invariant
            next <= part@.len(),
            at + part@.len() <= text@.len() == text_len,
            forall|i: int| 0 <= i < next ==> part@[i] == text@[at + i],
        decreases part@.len() - next,
    {
        if part[next] != text[at + next] {
            assert(text@.subrange(at as int, at + part@.len())[next as int] != part@[next as int]);
            return false;
        }
        next = next + 1;
    }
    assert(text@.subrange(at as int, at + part@.len()) =~= part@);
    true
}

fn chars_of(text: &str) -> (chars: Vec<char>)
    ensures
        chars@ == text@,
{
    let mut chars: Vec<char> = Vec::new();
    for c in iter: text.chars()
        invariant
            iter.seq() == text@,
            chars@ == text@.take(iter.index()),
    {
        chars.push(c);
        assert(chars@ =~= text@.take(iter.index() + 1));
    }
    assert(chars@ =~= text@);
    chars
}

/// A part occurs in a text exactly where the text is something, then the part, then
/// something else.
pub proof fn law_part_stands_between_the_rest(part: Seq<char>, text: Seq<char>)
    ensures
        occurs_in(part, text) <==> exists|before: Seq<char>, after: Seq<char>|
            text == #[trigger] (before + part + after),
{
    if occurs_in(part, text) {
        let at = choose|at: int| stands_at(part, text, at);
        let before = text.take(at);
        let after = text.skip(at + part.len());
        assert(text =~= before + text.subrange(at, at + part.len()) + after);
        assert(text == before + part + after);
    }
    if exists|before: Seq<char>, after: Seq<char>| text == #[trigger] (before + part + after) {
        let (before, after) = choose|before: Seq<char>, after: Seq<char>|
            text == #[trigger] (before + part + after);
        let at = before.len() as int;
        assert(text.subrange(at, at + part.len()) =~= part);
        assert(stands_at(part, text, at));
    }
}

} // verus!
