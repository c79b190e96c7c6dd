//! Text as sequences of characters: searching, folding, numbers.

use vstd::prelude::*;

verus! {

/// A letter of the basic alphabet in lower case, any other character as it
/// is.
pub open spec fn folded(c: char) -> char {
    if 'A' <= c && c <= 'Z' {
        ((c as u8) + 32) as char
    } else {
        c
    }
}

/// True where two characters are the same, case aside where `fold` is set.
pub open spec fn alike(a: char, b: char, fold: bool) -> bool {
    if fold {
        folded(a) == folded(b)
    } else {
        a == b
    }
}

/// True where `needle` stands in `value` at `at`.
pub open spec fn occurs_at(value: Seq<char>, needle: Seq<char>, at: int, fold: bool) -> bool {
    &&& 0 <= at
    &&& at + needle.len() <= value.len()
    &&& forall|k: int| 0 <= k < needle.len() ==> alike(#[trigger] value[at + k], needle[k], fold)
}

/// True where `needle` stands somewhere in `value`.
pub open spec fn occurs(value: Seq<char>, needle: Seq<char>, fold: bool) -> bool {
    exists|at: int| occurs_at(value, needle, at, fold)
}

/// `text` with its letters of the basic alphabet in lower case.
pub open spec fn lowercased(text: Seq<char>) -> Seq<char> {
    Seq::new(text.len(), |i: int| folded(text[i]))
}

/// The digit of a number below ten.
pub open spec fn digit(n: nat) -> char {
    (('0' as u8) + (n as u8)) as char
}

/// A number in decimal notation.
pub open spec fn decimal(n: nat) -> Seq<char>
    decreases n,
{
    if n < 10 {
        seq![digit(n)]
    } else {
        decimal(n / 10).push(digit(n % 10))
    }
}

/// Computes [`folded`].
pub fn fold(c: char) -> (lower: char)
    ensures
        lower == folded(c),
{
    if 'A' <= c && c <= 'Z' {
        ((c as u8) + 32) as char
    } else {
        c
    }
}

/// The characters of `text`.
pub fn characters(text: &str) -> (chars: Vec<char>)
    ensures
        chars@ == text@,
{
    let length = text.unicode_len();
    let mut chars: Vec<char> = Vec::new();
    let mut i: usize = 0;
    while i < length
        invariant
            i <= length,
            length == text@.len(),
            chars@ == text@.take(i as int),
        decreases length - i,
    {
        chars.push(text.get_char(i));
        assert(chars@ =~= text@.take(i + 1));
        i += 1;
    }
    assert(text@.take(i as int) =~= text@);
    chars
}

/// Appends the characters `chars[from..to]` to `out`.
pub fn write_characters(out: &mut String, chars: &Vec<char>, from: usize, to: usize)
    requires
        from <= to <= chars.len(),
    ensures
        final(out)@ == old(out)@ + chars@.subrange(from as int, to as int),
{
    let mut i: usize = from;
    assert(out@ =~= old(out)@ + chars@.subrange(from as int, i as int));
    while i < to
        invariant
            from <= i <= to <= chars.len(),
            out@ == old(out)@ + chars@.subrange(from as int, i as int),
        decreases to - i,
    {
        out.push(chars[i]);
        assert(out@ =~= old(out)@ + chars@.subrange(from as int, i + 1));
        i += 1;
    }
}

/// True where `needle` stands in `value` at `at`.
pub fn stands_at(value: &Vec<char>, needle: &Vec<char>, at: usize, ignore_case: bool) -> (found: bool)
    ensures
        found == occurs_at(value@, needle@, at as int, ignore_case),
{
    if needle.len() > value.len() || at > value.len() - needle.len() {
        return false;
    }
    let mut k: usize = 0;
    while k < needle.len()
        invariant
            k <= needle.len(),
            at + needle.len() <= value.len(),
            forall|j: int| 0 <= j < k ==> alike(#[trigger] value@[at + j], needle@[j], ignore_case),
        decreases needle.len() - k,
    {
        let same = if ignore_case {
            fold(value[at + k]) == fold(needle[k])
        } else {
            value[at + k] == needle[k]
        };
        if !same {
            assert(!alike(value@[at + k], needle@[k as int], ignore_case));
            return false;
        }
        k += 1;
    }
    true
}

/// True where `needle` stands somewhere in `value`.
pub fn contains(value: &str, needle: &str, ignore_case: bool) -> (found: bool)
    ensures
        found == occurs(value@, needle@, ignore_case),
{
    let text = characters(value);
    let wanted = characters(needle);
    let mut at: usize = 0;
    while at < text.len()
        invariant
            text@ == value@,
            wanted@ == needle@,
            at <= text.len(),
            forall|earlier: int|
                0 <= earlier < at ==> !occurs_at(value@, needle@, earlier, ignore_case),
        decreases text.len() - at,
    {
        if stands_at(&text, &wanted, at, ignore_case) {
            return true;
        }
        at += 1;
    }
    if stands_at(&text, &wanted, at, ignore_case) {
        return true;
    }
    assert forall|at: int| !occurs_at(value@, needle@, at, ignore_case) by {}
    false
}

/// Appends `text` in lower case to `out`.
pub fn write_lowercased(out: &mut String, text: &str)
    ensures
        final(out)@ == old(out)@ + lowercased(text@),
{
    let chars = characters(text);
    let mut i: usize = 0;
    assert(out@ =~= old(out)@ + lowercased(text@).take(0));
    while i < chars.len()
        invariant
            i <= chars.len(),
            chars@ == text@,
            out@ == old(out)@ + lowercased(text@).take(i as int),
        decreases chars.len() - i,
    {
        out.push(fold(chars[i]));
        assert(out@ =~= old(out)@ + lowercased(text@).take(i + 1));
        i += 1;
    }
    assert(lowercased(text@).take(i as int) =~= lowercased(text@));
}

/// Appends `n` in decimal notation to `out`.
pub fn write_decimal(out: &mut String, n: usize)
    ensures
        final(out)@ == old(out)@ + decimal(n as nat),
    decreases n,
{
    if n >= 10 {
        write_decimal(out, n / 10);
    }
    let last: u8 = (n % 10) as u8;
    out.push((('0' as u8) + last) as char);
    proof {
        if n >= 10 {
            assert(out@ =~= old(out)@ + decimal(n as nat));
        } else {
            assert(out@ =~= old(out)@ + decimal(n as nat));
        }
    }
}

} // verus!
