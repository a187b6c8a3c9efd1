//! Text without the white space around it.

use vstd::prelude::*;

verus! {

/// Whether a character has the Unicode property `White_Space`.
pub open spec fn is_white_space(c: char) -> bool {
    let n = c as u32;
    ||| 0x9 <= n <= 0xd
    ||| n == 0x20
    ||| n == 0x85
    ||| n == 0xa0
    ||| n == 0x1680
    ||| 0x2000 <= n <= 0x200a
    ||| 0x2028 <= n <= 0x2029
    ||| n == 0x202f
    ||| n == 0x205f
    ||| n == 0x3000
}

/// `s` without the white space at its front.
pub open spec fn trim_front(s: Seq<char>) -> Seq<char>
    decreases s.len(),
{
    if s.len() > 0 && is_white_space(s.first()) {
        trim_front(s.drop_first())
    } else {
        s
    }
}

/// `s` without the white space at its back.
pub open spec fn trim_back(s: Seq<char>) -> Seq<char>
    decreases s.len(),
{
    if s.len() > 0 && is_white_space(s.last()) {
        trim_back(s.drop_last())
    } else {
        s
    }
}

/// `s` without the white space at either end.
pub open spec fn trimmed(s: Seq<char>) -> Seq<char> {
    trim_back(trim_front(s))
}

/// The standard library's `str::trim`: the part of the text that is left when leading and
/// trailing characters with the Unicode property `White_Space` are taken off.
pub assume_specification[ str::trim ](s: &str) -> (r: &str)
    ensures
        r@ == trimmed(s@),
;

/// The characters that count as white space, one by one.
pub proof fn white_space_characters(c: char)
    ensures
        is_white_space(c) <==> seq![
            '\t', '\n', '\u{b}', '\u{c}', '\r', ' ', '\u{85}', '\u{a0}', '\u{1680}', '\u{2000}',
            '\u{2001}', '\u{2002}', '\u{2003}', '\u{2004}', '\u{2005}', '\u{2006}', '\u{2007}',
            '\u{2008}', '\u{2009}', '\u{200a}', '\u{2028}', '\u{2029}', '\u{202f}', '\u{205f}',
            '\u{3000}',
        ].contains(c),
{
    let all = seq![
        '\t', '\n', '\u{b}', '\u{c}', '\r', ' ', '\u{85}', '\u{a0}', '\u{1680}', '\u{2000}',
        '\u{2001}', '\u{2002}', '\u{2003}', '\u{2004}', '\u{2005}', '\u{2006}', '\u{2007}',
        '\u{2008}', '\u{2009}', '\u{200a}', '\u{2028}', '\u{2029}', '\u{202f}', '\u{205f}',
        '\u{3000}',
    ];
    let n = c as int;
    if is_white_space(c) {
        let i = if n <= 0xd {
            n - 0x9
        } else if n == 0x20 {
            5
        } else if n == 0x85 {
            6
        } else if n == 0xa0 {
            7
        } else if n == 0x1680 {
            8
        } else if n <= 0x200a {
            9 + (n - 0x2000)
        } else if n <= 0x2029 {
            20 + (n - 0x2028)
        } else if n == 0x202f {
            22
        } else if n == 0x205f {
            23
        } else {
            24
        };
        assert(all[i] == c);
    }
}

/// What is left after trimming neither starts nor ends with white space.
pub proof fn trimmed_has_no_white_ends(s: Seq<char>)
    ensures
        trimmed(s).len() > 0 ==> !is_white_space(trimmed(s).first()) && !is_white_space(
            trimmed(s).last(),
        ),
{
    front_is_dark(s);
    back_is_dark(trim_front(s));
}

proof fn front_is_dark(s: Seq<char>)
    ensures
        trim_front(s).len() > 0 ==> !is_white_space(trim_front(s).first()),
    decreases s.len(),
{
    if s.len() > 0 && is_white_space(s.first()) {
        front_is_dark(s.drop_first());
    }
}

proof fn back_is_dark(s: Seq<char>)
    ensures
        trim_back(s).len() > 0 ==> !is_white_space(trim_back(s).last()) && trim_back(s).first()
            == s.first(),
    decreases s.len(),
{
    if s.len() > 0 && is_white_space(s.last()) {
        back_is_dark(s.drop_last());
    }
}

/// Trimming takes white space off the ends and nothing else: the text is what is left, with
/// white space in front of it and behind it.
pub proof fn trimmed_takes_white_space_only(s: Seq<char>)
    ensures
        exists|front: Seq<char>, back: Seq<char>|
            s == #[trigger] (front + trimmed(s) + back) && (forall|i: int|
                0 <= i < front.len() ==> is_white_space(#[trigger] front[i])) && (forall|i: int|
                0 <= i < back.len() ==> is_white_space(#[trigger] back[i])),
{
    let front = front_of(s);
    let back = back_of(trim_front(s));
    assert(s =~= front + trimmed(s) + back);
}

/// The white space at the front.
proof fn front_of(s: Seq<char>) -> (front: Seq<char>)
    ensures
        s == front + trim_front(s),
        forall|i: int| 0 <= i < front.len() ==> is_white_space(#[trigger] front[i]),
    decreases s.len(),
{
    if s.len() > 0 && is_white_space(s.first()) {
        let rest = front_of(s.drop_first());
        let front = seq![s.first()] + rest;
        assert(s =~= seq![s.first()] + s.drop_first());
        assert(front + trim_front(s) =~= seq![s.first()] + (rest + trim_front(s)));
        front
    } else {
        let front = Seq::empty();
        assert(s =~= front + trim_front(s));
        front
    }
}

/// The white space at the back.
proof fn back_of(s: Seq<char>) -> (back: Seq<char>)
    ensures
        s == trim_back(s) + back,
        forall|i: int| 0 <= i < back.len() ==> is_white_space(#[trigger] back[i]),
    decreases s.len(),
{
    if s.len() > 0 && is_white_space(s.last()) {
        let rest = back_of(s.drop_last());
        let back = rest + seq![s.last()];
        assert(s =~= s.drop_last() + seq![s.last()]);
        assert(trim_back(s) + back =~= (trim_back(s) + rest) + seq![s.last()]);
        back
    } else {
        let back = Seq::empty();
        assert(s =~= trim_back(s) + back);
        back
    }
}

/// Text with no white space at its ends is left alone.
pub proof fn trimmed_keeps_the_rest(s: Seq<char>)
    requires
        s.len() > 0 ==> !is_white_space(s.first()) && !is_white_space(s.last()),
    ensures
        trimmed(s) == s,
{
}

/// White space around a text with none at its ends comes off, and the text stays.
pub proof fn trimmed_of_padded(front: Seq<char>, s: Seq<char>, back: Seq<char>)
    requires
        forall|i: int| 0 <= i < front.len() ==> is_white_space(#[trigger] front[i]),
        forall|i: int| 0 <= i < back.len() ==> is_white_space(#[trigger] back[i]),
        s.len() > 0,
        !is_white_space(s.first()),
        !is_white_space(s.last()),
    ensures
        trimmed(front + s + back) == s,
    decreases front.len() + back.len(),
{
    let text = front + s + back;
    if front.len() > 0 {
        let rest = front.drop_first();
        assert(text.first() == front[0]);
        assert(text.drop_first() =~= rest + s + back);
        assert forall|i: int| 0 <= i < rest.len() implies is_white_space(#[trigger] rest[i]) by {
            assert(rest[i] == front[i + 1]);
        }
        trimmed_of_padded(rest, s, back);
    } else {
        assert(text.first() == s.first());
        if back.len() > 0 {
            let rest = back.drop_last();
            assert(text.last() == back[back.len() - 1]);
            assert(text.drop_last() =~= front + s + rest);
            trimmed_of_padded(front, s, rest);
            assert(text.drop_last().first() == s.first());
        } else {
            assert(text =~= s);
        }
    }
}

} // verus!
