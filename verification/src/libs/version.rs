//! Dotted numeric versions: how a version string is read as a list of
//! components and how a list of components is written back.

use vstd::prelude::*;
use vstd::string::*;
use crate::libs::text::{join_strings, joined, push_char, views};

verus! {

/// An ASCII decimal digit.
pub open spec fn is_digit(c: char) -> bool {
    '0' <= c && c <= '9'
}

/// The number that a decimal digit stands for.
pub open spec fn digit_value(c: char) -> nat {
    (c as int - '0' as int) as nat
}

/// The decimal digit that stands for `d`, for `d` below ten.
pub open spec fn digit_char(d: nat) -> char {
    (('0' as int) + d) as char
}

/// The number written by a sequence of decimal digits, most significant first.
pub open spec fn decimal_value(s: Seq<char>) -> nat
    decreases s.len(),
{
    if s.len() == 0 {
        0
    } else {
        10 * decimal_value(s.drop_last()) + digit_value(s.last())
    }
}

/// A text of decimal digits only; the empty text is one.
pub open spec fn all_digits(s: Seq<char>) -> bool {
    forall|i: int| 0 <= i < s.len() ==> is_digit(#[trigger] s[i])
}

/// A component's text without its optional leading plus sign.
pub open spec fn unsigned_part(s: Seq<char>) -> Seq<char> {
    if s.len() > 0 && s[0] == '+' {
        s.subrange(1, s.len() as int)
    } else {
        s
    }
}

/// The value of one component of a version, or `None` where the text is not
/// a non-negative decimal number that fits in 32 bits. An optional leading
/// plus sign is accepted; an empty text, or a sign alone, is not a number.
pub open spec fn parse_component(s: Seq<char>) -> Option<nat> {
    let d = unsigned_part(s);
    if d.len() > 0 && all_digits(d) && decimal_value(d) <= u32::MAX {
        Some(decimal_value(d))
    } else {
        None
    }
}

/// The pieces of a text between its dots, in order. A text without a dot is
/// one piece; a dot at either end leaves an empty piece there.
pub open spec fn split_dots(s: Seq<char>) -> Seq<Seq<char>>
    decreases s.len(),
{
    if s.len() == 0 {
        seq![Seq::<char>::empty()]
    } else {
        let init = split_dots(s.drop_last());
        if s.last() == '.' {
            init.push(Seq::<char>::empty())
        } else {
            init.drop_last().push(init.last().push(s.last()))
        }
    }
}

/// The values of the pieces that are numbers, in order; the other pieces are
/// left out.
pub open spec fn numbers_of(pieces: Seq<Seq<char>>) -> Seq<nat>
    decreases pieces.len(),
{
    if pieces.len() == 0 {
        Seq::<nat>::empty()
    } else {
        let init = numbers_of(pieces.drop_last());
        match parse_component(pieces.last()) {
            Some(v) => init.push(v),
            None => init,
        }
    }
}

/// The numeric components of a dotted version.
pub open spec fn components(s: Seq<char>) -> Seq<nat> {
    numbers_of(split_dots(s))
}

/// A number in decimal, without sign or leading zeros.
pub open spec fn render_number(n: nat) -> Seq<char>
    decreases n,
{
    if n < 10 {
        seq![digit_char(n)]
    } else {
        render_number(n / 10).push(digit_char(n % 10))
    }
}

/// The components written in decimal, one text for each.
pub open spec fn rendered(v: Seq<nat>) -> Seq<Seq<char>> {
    Seq::new(v.len(), |i: int| render_number(v[i]))
}

/// The components in decimal with a dot between neighbours.
pub open spec fn join_dots(v: Seq<nat>) -> Seq<char> {
    joined(rendered(v), '.')
}

/// The components after a bump at `index`: that component is one greater and
/// every component to its right is zero. Where the version has no component
/// at `index`, nothing changes.
pub open spec fn incremented(v: Seq<nat>, index: nat) -> Seq<nat> {
    if index < v.len() {
        Seq::new(
            v.len(),
            |i: int|
                if i < index {
                    v[i]
                } else if i == index {
                    v[i] + 1
                } else {
                    0
                },
        )
    } else {
        v
    }
}

/// The values of a vector of machine integers.
pub open spec fn values32(v: Seq<u32>) -> Seq<nat> {
    Seq::new(v.len(), |i: int| v[i] as nat)
}

/// The values of a vector of machine integers.
pub open spec fn values64(v: Seq<u64>) -> Seq<nat> {
    Seq::new(v.len(), |i: int| v[i] as nat)
}

/// The digits at the front of a number write no greater number.
proof fn lemma_decimal_value_prefix(s: Seq<char>, k: int)
    requires
        0 <= k <= s.len(),
    ensures
        decimal_value(s.subrange(0, k)) <= decimal_value(s),
    decreases s.len() - k,
{
    if k == s.len() {
        assert(s.subrange(0, k) =~= s);
    } else {
        lemma_decimal_value_prefix(s, k + 1);
        assert(s.subrange(0, k + 1).drop_last() =~= s.subrange(0, k));
    }
}

/// Reads one component of a version.
pub fn read_component(piece: &str) -> (r: Option<u32>)
    ensures
        match r {
            Some(v) => parse_component(piece@) == Some(v as nat),
            None => parse_component(piece@).is_none(),
        },
{
    let mut value: u64 = 0;
    let mut first = true;
    let mut any = false;
    assert(piece@.subrange(0, 0) =~= Seq::<char>::empty());
    for c in it: piece.chars()
        invariant
            it.seq() == piece@,
            first <==> it.index() == 0,
            any <==> unsigned_part(piece@.subrange(0, it.index() as int)).len() > 0,
            all_digits(unsigned_part(piece@.subrange(0, it.index() as int))),
            value == decimal_value(unsigned_part(piece@.subrange(0, it.index() as int))),
            value <= u32::MAX,
    {
        let ghost k = it.index() as int;
        let ghost before = unsigned_part(piece@.subrange(0, k));
        let ghost after = unsigned_part(piece@.subrange(0, k + 1));
        if first && c == '+' {
            assert(after =~= Seq::<char>::empty());
        } else {
            assert(after =~= before.push(c));
            assert(after.drop_last() =~= before);
            assert(unsigned_part(piece@).len() > k - 1);
            assert(unsigned_part(piece@)[after.len() - 1] == c);
            if !(c >= '0' && c <= '9') {
                return None;
            }
            let digit: u64 = (c as u64) - ('0' as u64);
            let next: u64 = value * 10 + digit;
            assert(next == decimal_value(after));
            if next > 0xffff_ffff {
                proof {
                    assert(unsigned_part(piece@).subrange(0, after.len() as int) =~= after);
                    lemma_decimal_value_prefix(unsigned_part(piece@), after.len() as int);
                }
                return None;
            }
            assert forall|j: int| 0 <= j < after.len() implies is_digit(#[trigger] after[j]) by {
                if j < before.len() {
                    assert(after[j] == before[j]);
                }
            }
            value = next;
            any = true;
        }
        first = false;
    }
    assert(piece@.subrange(0, piece@.len() as int) =~= piece@);
    if any {
        Some(value as u32)
    } else {
        None
    }
}

/// Reads the numeric components of a dotted version, leaving out every piece
/// that is not a number.
pub fn read_components(s: &str) -> (v: Vec<u32>)
    ensures
        values32(v@) == components(s@),
{
    let mut out: Vec<u32> = Vec::new();
    let mut piece = String::new();
    let ghost mut closed: Seq<Seq<char>> = Seq::empty();
    assert(s@.subrange(0, 0) =~= Seq::<char>::empty());
    assert(split_dots(s@.subrange(0, 0)) =~= closed.push(piece@));
    assert(values32(out@) =~= numbers_of(closed));
    for c in it: s.chars()
        invariant
            it.seq() == s@,
            split_dots(s@.subrange(0, it.index() as int)) == closed.push(piece@),
            values32(out@) == numbers_of(closed),
    {
        let ghost k = it.index() as int;
        let ghost before = s@.subrange(0, k);
        let ghost after = s@.subrange(0, k + 1);
        let ghost open = piece@;
        assert(after.drop_last() =~= before);
        assert(after.last() == c);
        assert(closed.push(open).drop_last() =~= closed);
        if c == '.' {
            let ghost old_out = out@;
            match read_component(piece.as_str()) {
                Some(v) => {
                    out.push(v);
                    assert(values32(out@) =~= values32(old_out).push(v as nat));
                },
                None => {},
            }
            piece = String::new();
            proof {
                closed = closed.push(open);
            }
        } else {
            push_char(&mut piece, c);
        }
    }
    assert(s@.subrange(0, s@.len() as int) =~= s@);
    let ghost old_out = out@;
    assert(closed.push(piece@).drop_last() =~= closed);
    match read_component(piece.as_str()) {
        Some(v) => {
            out.push(v);
            assert(values32(out@) =~= values32(old_out).push(v as nat));
        },
        None => {},
    }
    out
}

/// Raises the component at `index` by one and sets every component to its
/// right to zero. A version without a component at `index` is left as it is.
pub fn increment(version_vec: Vec<u32>, index: usize) -> (r: Vec<u64>)
    ensures
        values64(r@) == incremented(values32(version_vec@), index as nat),
{
    let mut out: Vec<u64> = Vec::new();
    let mut i: usize = 0;
    while i < version_vec.len()
        invariant
            i <= version_vec.len(),
            out@.len() == i,
            forall|j: int|
                0 <= j < i ==> #[trigger] out@[j] as nat == incremented(
                    values32(version_vec@),
                    index as nat,
                )[j],
        decreases version_vec.len() - i,
    {
        let value: u64 = version_vec[i] as u64;
        if index >= version_vec.len() || i < index {
            out.push(value);
        } else if i == index {
            out.push(value + 1);
        } else {
            out.push(0);
        }
        i = i + 1;
    }
    assert(values64(out@) =~= incremented(values32(version_vec@), index as nat));
    out
}

/// The text of one decimal digit.
fn digit_text(d: u64) -> (t: &'static str)
    requires
        d < 10,
    ensures
        t@ == seq![digit_char(d as nat)],
{
    proof {
        reveal_strlit("0");
        reveal_strlit("1");
        reveal_strlit("2");
        reveal_strlit("3");
        reveal_strlit("4");
        reveal_strlit("5");
        reveal_strlit("6");
        reveal_strlit("7");
        reveal_strlit("8");
        reveal_strlit("9");
    }
    let t = match d {
        0 => "0",
        1 => "1",
        2 => "2",
        3 => "3",
        4 => "4",
        5 => "5",
        6 => "6",
        7 => "7",
        8 => "8",
        _ => "9",
    };
    assert(t@ =~= seq![digit_char(d as nat)]);
    t
}

/// Writes a number in decimal.
pub fn write_number(n: u64) -> (s: String)
    ensures
        s@ == render_number(n as nat),
    decreases n,
{
    if n < 10 {
        String::from_str(digit_text(n))
    } else {
        let mut s = write_number(n / 10);
        s.append(digit_text(n % 10));
        s
    }
}

/// Writes the components in decimal with a dot between neighbours.
pub fn write_version(v: &Vec<u64>) -> (s: String)
    ensures
        s@ == join_dots(values64(v@)),
{
    let mut numbers: Vec<String> = Vec::new();
    let mut i: usize = 0;
    while i < v.len()
        invariant
            i <= v.len(),
            numbers@.len() == i,
            forall|j: int| 0 <= j < i ==> numbers@[j]@ == render_number(v@[j] as nat),
        decreases v.len() - i,
    {
        numbers.push(write_number(v[i]));
        i = i + 1;
    }
    assert(views(numbers@) =~= rendered(values64(v@)));
    join_strings(&numbers, '.')
}

/// A well-formed version: exactly three pieces between dots, each of them a
/// number.
pub open spec fn is_version(s: Seq<char>) -> bool {
    &&& split_dots(s).len() == 3
    &&& forall|i: int| 0 <= i < 3 ==> (#[trigger] parse_component(split_dots(s)[i])).is_some()
}

/// A number written in decimal is a non-empty run of digits whose value is
/// the number.
pub proof fn lemma_render_number(n: nat)
    ensures
        render_number(n).len() > 0,
        all_digits(render_number(n)),
        decimal_value(render_number(n)) == n,
    decreases n,
{
    let r = render_number(n);
    if n < 10 {
        assert(r.drop_last() =~= Seq::<char>::empty());
        assert(r.last() == digit_char(n));
        assert(digit_value(digit_char(n)) == n);
        assert(decimal_value(Seq::<char>::empty()) == 0);
    } else {
        lemma_render_number(n / 10);
        assert(r.drop_last() =~= render_number(n / 10));
        assert(r.last() == digit_char(n % 10));
        assert(digit_value(digit_char(n % 10)) == n % 10);
        assert forall|i: int| 0 <= i < r.len() implies is_digit(#[trigger] r[i]) by {
            if i < r.len() - 1 {
                assert(r[i] == render_number(n / 10)[i]);
            }
        }
    }
}

/// Reading a number that was written in decimal gives the number back,
/// unless it does not fit in 32 bits.
pub proof fn lemma_parse_rendered(n: nat)
    ensures
        parse_component(render_number(n)) == if n <= u32::MAX {
            Some(n)
        } else {
            None
        },
{
    lemma_render_number(n);
    let r = render_number(n);
    assert(is_digit(r[0]));
    assert(unsigned_part(r) == r);
}

/// A text has at least one piece.
proof fn lemma_split_nonempty(s: Seq<char>)
    ensures
        split_dots(s).len() > 0,
    decreases s.len(),
{
    if s.len() > 0 {
        lemma_split_nonempty(s.drop_last());
    }
}

/// A text without a dot.
pub open spec fn dot_free(s: Seq<char>) -> bool {
    forall|i: int| 0 <= i < s.len() ==> s[i] != '.'
}

/// A text without a dot, put behind another, lengthens its last piece.
proof fn lemma_split_append(s: Seq<char>, t: Seq<char>)
    requires
        dot_free(t),
    ensures
        split_dots(s).len() > 0,
        split_dots(s + t) == split_dots(s).drop_last().push(split_dots(s).last() + t),
    decreases t.len(),
{
    lemma_split_nonempty(s);
    if t.len() == 0 {
        assert(s + t =~= s);
        assert(split_dots(s).last() + t =~= split_dots(s).last());
        assert(split_dots(s).drop_last().push(split_dots(s).last()) =~= split_dots(s));
    } else {
        let t0 = t.drop_last();
        lemma_split_append(s, t0);
        assert((s + t).drop_last() =~= s + t0);
        assert((s + t).last() == t.last());
        let init = split_dots(s + t0);
        assert(init.drop_last() =~= split_dots(s).drop_last());
        assert(init.last().push(t.last()) =~= split_dots(s).last() + t);
    }
}

/// Pieces without a dot, joined with dots, are split into themselves.
pub proof fn lemma_split_of_joined(pieces: Seq<Seq<char>>)
    requires
        pieces.len() > 0,
        forall|i: int| 0 <= i < pieces.len() ==> dot_free(#[trigger] pieces[i]),
    ensures
        split_dots(joined(pieces, '.')) == pieces,
    decreases pieces.len(),
{
    let last = pieces.last();
    assert(dot_free(pieces[pieces.len() - 1]));
    if pieces.len() == 1 {
        let none = Seq::<char>::empty();
        lemma_split_append(none, last);
        assert(none + last =~= last);
        assert(split_dots(none) =~= seq![none]);
        assert(split_dots(last) =~= pieces);
    } else {
        let init = pieces.drop_last();
        assert forall|i: int| 0 <= i < init.len() implies dot_free(#[trigger] init[i]) by {
            assert(init[i] == pieces[i]);
        }
        lemma_split_of_joined(init);
        let head = joined(init, '.').push('.');
        assert(head.drop_last() =~= joined(init, '.'));
        assert(split_dots(head) == init.push(Seq::<char>::empty()));
        lemma_split_append(head, last);
        assert(init.push(Seq::<char>::empty()).drop_last() =~= init);
        assert(Seq::<char>::empty() + last =~= last);
        assert(init.push(last) =~= pieces);
    }
}

/// The pieces of a written version are its components in decimal.
proof fn lemma_split_joined(v: Seq<nat>)
    requires
        v.len() > 0,
    ensures
        split_dots(join_dots(v)) == rendered(v),
{
    assert forall|i: int| 0 <= i < rendered(v).len() implies dot_free(#[trigger] rendered(v)[i]) by {
        lemma_render_number(v[i]);
        let text = render_number(v[i]);
        assert forall|k: int| 0 <= k < text.len() implies text[k] != '.' by {
            assert(is_digit(text[k]));
        }
    }
    lemma_split_of_joined(rendered(v));
}

/// Components in decimal are read as themselves, as long as each fits in
/// 32 bits.
proof fn lemma_numbers_of_rendered(v: Seq<nat>)
    requires
        forall|i: int| 0 <= i < v.len() ==> v[i] <= u32::MAX,
    ensures
        numbers_of(rendered(v)) == v,
    decreases v.len(),
{
    if v.len() == 0 {
        assert(numbers_of(rendered(v)) =~= v);
    } else {
        lemma_numbers_of_rendered(v.drop_last());
        lemma_parse_rendered(v.last());
        assert(rendered(v).drop_last() =~= rendered(v.drop_last()));
        assert(v.drop_last().push(v.last()) =~= v);
    }
}

/// Pieces that are all numbers give as many components as there are
/// pieces, each the value of its piece.
pub proof fn lemma_numbers_of_all(pieces: Seq<Seq<char>>)
    requires
        forall|i: int| 0 <= i < pieces.len() ==> (#[trigger] parse_component(pieces[i])).is_some(),
    ensures
        numbers_of(pieces).len() == pieces.len(),
        forall|i: int|
            0 <= i < pieces.len() ==> parse_component(pieces[i]) == Some(
                #[trigger] numbers_of(pieces)[i],
            ),
    decreases pieces.len(),
{
    if pieces.len() > 0 {
        let init = pieces.drop_last();
        assert forall|i: int| 0 <= i < init.len() implies (#[trigger] parse_component(
            init[i],
        )).is_some() by {
            assert(init[i] == pieces[i]);
        }
        lemma_numbers_of_all(init);
        assert(parse_component(pieces[pieces.len() - 1]).is_some());
    }
}

/// Every component of a version fits in 32 bits.
pub proof fn lemma_numbers_bounded(pieces: Seq<Seq<char>>)
    ensures
        forall|i: int| 0 <= i < numbers_of(pieces).len() ==> numbers_of(pieces)[i] <= u32::MAX,
    decreases pieces.len(),
{
    if pieces.len() > 0 {
        let init = numbers_of(pieces.drop_last());
        lemma_numbers_bounded(pieces.drop_last());
        assert forall|i: int| 0 <= i < numbers_of(pieces).len() implies numbers_of(pieces)[i]
            <= u32::MAX by {
            if i < init.len() {
                assert(numbers_of(pieces)[i] == init[i]);
            }
        }
    }
}

/// Writing components and reading them back gives the same components, as
/// long as each fits in 32 bits.
pub proof fn lemma_components_of_joined(v: Seq<nat>)
    requires
        forall|i: int| 0 <= i < v.len() ==> v[i] <= u32::MAX,
    ensures
        components(join_dots(v)) == v,
{
    if v.len() == 0 {
        let none = Seq::<char>::empty();
        assert(join_dots(v) =~= none);
        assert(split_dots(none) =~= seq![none]);
        assert(seq![none].drop_last() =~= Seq::<Seq<char>>::empty());
        assert(unsigned_part(none) == none);
        assert(numbers_of(Seq::<Seq<char>>::empty()) =~= v);
        assert(numbers_of(seq![none]) =~= v);
    } else {
        lemma_split_joined(v);
        lemma_numbers_of_rendered(v);
    }
}

/// Components that each fit in 32 bits are written as a well-formed
/// version if and only if there are three of them.
pub proof fn lemma_joined_is_version(v: Seq<nat>)
    requires
        v.len() == 3,
        forall|i: int| 0 <= i < v.len() ==> v[i] <= u32::MAX,
    ensures
        is_version(join_dots(v)),
{
    lemma_split_joined(v);
    assert forall|i: int| 0 <= i < 3 implies (#[trigger] parse_component(
        split_dots(join_dots(v))[i],
    )).is_some() by {
        lemma_parse_rendered(v[i]);
    }
}

} // verus!
