//! Lists in HTTP header fields.

use vstd::prelude::*;
use vstd::string::{StrSliceExecFns, StringExecFns};
use vstd::utf8::{decode_utf8, pop_first_scalar, valid_utf8};

use super::proto::params::texts;
use crate::text::{chars_of, from_utf8};

verus! {

/// Whether `c` is white space (Unicode `White_Space`).
pub open spec fn is_space(c: char) -> bool {
    ||| '\u{9}' <= c <= '\u{d}'
    ||| c == ' '
    ||| c == '\u{85}'
    ||| c == '\u{a0}'
    ||| c == '\u{1680}'
    ||| '\u{2000}' <= c <= '\u{200a}'
    ||| c == '\u{2028}'
    ||| c == '\u{2029}'
    ||| c == '\u{202f}'
    ||| c == '\u{205f}'
    ||| c == '\u{3000}'
}

/// Without the white space at the start.
pub open spec fn trim_start(s: Seq<char>) -> Seq<char>
    decreases s.len(),
{
    if s.len() > 0 && is_space(s[0]) {
        trim_start(s.drop_first())
    } else {
        s
    }
}

/// Without the white space at the end.
pub open spec fn trim_end(s: Seq<char>) -> Seq<char>
    decreases s.len(),
{
    if s.len() > 0 && is_space(s.last()) {
        trim_end(s.drop_last())
    } else {
        s
    }
}

/// Without the white space at either end.
pub open spec fn trimmed(s: Seq<char>) -> Seq<char> {
    trim_end(trim_start(s))
}

/// Where the list element that starts at `i` ends: at the next comma, or at the
/// end.
pub open spec fn element_end(s: Seq<char>, i: int) -> int
    decreases s.len() - i,
{
    if i >= s.len() || s[i] == ',' {
        i
    } else {
        element_end(s, i + 1)
    }
}

/// The element as part of a list: nothing where it is empty.
pub open spec fn listed(t: Seq<char>) -> Seq<Seq<char>> {
    if t.len() > 0 {
        seq![t]
    } else {
        Seq::empty()
    }
}

/// The elements of a comma-separated list from `i` on, without white space around
/// them and without the empty ones.
pub open spec fn elements_from(s: Seq<char>, i: int) -> Seq<Seq<char>>
    decreases s.len() + 1 - i,
{
    if i < 0 || i > s.len() {
        Seq::empty()
    } else {
        proof {
            lemma_element_end(s, i);
        }
        let end = element_end(s, i);
        listed(trimmed(s.subrange(i, end))) + elements_from(s, end + 1)
    }
}

/// The elements of a comma-separated list.
pub open spec fn elements(s: Seq<char>) -> Seq<Seq<char>> {
    elements_from(s, 0)
}

/// An element ends where it starts or later, and within the list.
pub proof fn lemma_element_end(s: Seq<char>, i: int)
    requires
        0 <= i <= s.len(),
    ensures
        i <= element_end(s, i) <= s.len(),
    decreases s.len() - i,
{
    if i < s.len() && s[i] != ',' {
        lemma_element_end(s, i + 1);
    }
}

fn space(c: char) -> (r: bool)
    ensures
        r == is_space(c),
{
    ('\u{9}' <= c && c <= '\u{d}') || c == ' ' || c == '\u{85}' || c == '\u{a0}' || c == '\u{1680}'
        || ('\u{2000}' <= c && c <= '\u{200a}') || c == '\u{2028}' || c == '\u{2029}' || c
        == '\u{202f}' || c == '\u{205f}' || c == '\u{3000}'
}

/// Where the text between `from` and `to` starts and ends without the white space
/// around it.
fn trim_range(chars: &Vec<char>, from: usize, to: usize) -> (r: (usize, usize))
    requires
        from <= to <= chars@.len(),
    ensures
        from <= r.0 <= r.1 <= to,
        chars@.subrange(r.0 as int, r.1 as int) == trimmed(
            chars@.subrange(from as int, to as int),
        ),
{
    let ghost all = chars@.subrange(from as int, to as int);
    let mut a: usize = from;
    while a < to && space(chars[a])
        invariant
            from <= a <= to <= chars@.len(),
            trim_start(chars@.subrange(a as int, to as int)) == trim_start(all),
        decreases to - a,
    {
        proof {
            let s = chars@.subrange(a as int, to as int);
            assert(s[0] == chars@[a as int]);
            assert(s.drop_first() =~= chars@.subrange(a + 1, to as int));
        }
        a += 1;
    }
    proof {
        let s = chars@.subrange(a as int, to as int);
        if a < to {
            assert(s[0] == chars@[a as int]);
        }
        assert(trim_start(all) == s);
    }
    let mut b: usize = to;
    while b > a && space(chars[b - 1])
        invariant
            from <= a <= b <= to <= chars@.len(),
            trim_end(chars@.subrange(a as int, b as int)) == trimmed(all),
        decreases b - a,
    {
        proof {
            let s = chars@.subrange(a as int, b as int);
            assert(s.last() == chars@[b - 1]);
            assert(s.drop_last() =~= chars@.subrange(a as int, b - 1));
        }
        b -= 1;
    }
    proof {
        let s = chars@.subrange(a as int, b as int);
        if b > a {
            assert(s.last() == chars@[b - 1]);
        }
    }
    (a, b)
}

/// Append the elements of a comma-separated list.
pub(crate) fn push_elements(out: &mut Vec<String>, list: &str)
    ensures
        texts(final(out)@) == texts(old(out)@) + elements(list@),
{
    let chars = chars_of(list);
    let ghost had = texts(out@);
    let ghost s = list@;
    let mut i: usize = 0;
    let mut done: bool = false;
    assert(had + elements_from(s, 0) =~= texts(out@) + elements_from(s, 0));
    while !done
        invariant
            chars@ == s,
            s == list@,
            i <= chars@.len(),
            done ==> texts(out@) == had + elements(s),
            !done ==> texts(out@) + elements_from(s, i as int) == had + elements(s),
        decreases (if done {
            0
        } else {
            1 + chars@.len() - i
        }),
    {
        let mut end: usize = i;
        while end < chars.len() && chars[end] != ','
            invariant
                i <= end <= chars@.len(),
                chars@ == s,
                element_end(s, i as int) == element_end(s, end as int),
            decreases chars@.len() - end,
        {
            end += 1;
        }
        let (a, b) = trim_range(&chars, i, end);
        let ghost t = trimmed(s.subrange(i as int, end as int));
        let ghost before = texts(out@);
        if a < b {
            out.push(list.substring_char(a, b).to_string());
            assert(texts(out@) =~= before + listed(t));
        } else {
            assert(before + listed(t) =~= before);
        }
        proof {
            let rest = elements_from(s, end + 1);
            assert(before + (listed(t) + rest) =~= texts(out@) + rest);
            if end == chars@.len() {
                assert(texts(out@) + rest =~= texts(out@));
            }
        }
        if end < chars.len() {
            i = end + 1;
        } else {
            done = true;
        }
    }
}

/// The names one after the other, with a comma and a space between them.
pub open spec fn joined(names: Seq<Seq<char>>) -> Seq<char>
    decreases names.len(),
{
    if names.len() == 0 {
        Seq::empty()
    } else if names.len() == 1 {
        names[0]
    } else {
        joined(names.drop_last()) + seq![',', ' '] + names.last()
    }
}

/// Put names in a row, with a comma and a space between them.
pub(crate) fn join(names: &Vec<String>) -> (r: String)
    ensures
        r@ == joined(texts(names@)),
{
    let ghost all = texts(names@);
    let mut out = String::new();
    let mut i: usize = 0;
    assert(out@ =~= joined(all.take(0)));
    while i < names.len()
        invariant
            i <= names@.len(),
            all == texts(names@),
            out@ == joined(all.take(i as int)),
        decreases names@.len() - i,
    {
        proof {
            assert(all.take(i + 1).drop_last() =~= all.take(i as int));
            assert(all.take(i + 1).last() == all[i as int]);
            reveal_strlit(", ");
            assert(", "@ =~= seq![',', ' ']);
        }
        let ghost before = out@;
        if i > 0 {
            out = out.concat(", ");
        }
        out = out.concat(names[i].as_str());
        proof {
            if i == 0 {
                assert(out@ =~= all[0]);
            }
        }
        i += 1;
    }
    assert(all.take(i as int) =~= all);
    out
}

/// Whether a byte of a header field is text: visible ASCII, a space or a tab.
pub open spec fn is_header_text(b: u8) -> bool {
    32 <= b < 127 || b == 9
}

/// Whether a header field is all text.
pub open spec fn all_text(bytes: Seq<u8>) -> bool {
    forall|i: int| 0 <= i < bytes.len() ==> is_header_text(#[trigger] bytes[i])
}

/// ASCII is UTF-8.
proof fn lemma_ascii_is_utf8(bytes: Seq<u8>)
    requires
        forall|i: int| 0 <= i < bytes.len() ==> #[trigger] bytes[i] < 0x80,
    ensures
        valid_utf8(bytes),
    decreases bytes.len(),
{
    if bytes.len() > 0 {
        let b = bytes[0];
        assert(b & 0x7f <= 0x7f) by (bit_vector);
        let rest = pop_first_scalar(bytes);
        assert forall|i: int| 0 <= i < rest.len() implies #[trigger] rest[i] < 0x80 by {
            assert(rest[i] == bytes[i + 1]);
        }
        lemma_ascii_is_utf8(rest);
    }
}

/// The text of a header field, where it is all text.
pub fn header_text(bytes: &[u8]) -> (r: Option<&str>)
    ensures
        match r {
            Some(s) => all_text(bytes@) && s@ == decode_utf8(bytes@),
            None => !all_text(bytes@),
        },
{
    let mut i: usize = 0;
    while i < bytes.len()
        invariant
            i <= bytes@.len(),
            forall|j: int| 0 <= j < i ==> is_header_text(#[trigger] bytes@[j]),
        decreases bytes@.len() - i,
    {
        let b: u8 = bytes[i];
        if !((32 <= b && b < 127) || b == 9) {
            assert(!is_header_text(bytes@[i as int]));
            return None;
        }
        i += 1;
    }
    proof {
        assert forall|j: int| 0 <= j < bytes@.len() implies #[trigger] bytes@[j] < 0x80 by {
            assert(is_header_text(bytes@[j]));
        }
        lemma_ascii_is_utf8(bytes@);
    }
    from_utf8(bytes)
}

/// The elements of all fields that are text, in order.
pub open spec fn field_elements(fields: Seq<Seq<u8>>) -> Seq<Seq<char>>
    decreases fields.len(),
{
    if fields.len() == 0 {
        Seq::empty()
    } else {
        field_elements(fields.drop_last()) + if all_text(fields.last()) {
            elements(decode_utf8(fields.last()))
        } else {
            Seq::empty()
        }
    }
}

/// The bytes of each field.
pub open spec fn field_views(fields: Seq<Vec<u8>>) -> Seq<Seq<u8>> {
    Seq::new(fields.len(), |i: int| fields[i]@)
}

/// The elements of a list that is spread over header fields. Fields that are not
/// text are passed over.
pub fn list_elements(fields: &[Vec<u8>]) -> (r: Vec<String>)
    ensures
        texts(r@) == field_elements(field_views(fields@)),
{
    let ghost all = field_views(fields@);
    let mut out: Vec<String> = Vec::new();
    let mut i: usize = 0;
    assert(texts(out@) =~= field_elements(all.take(0)));
    while i < fields.len()
        invariant
            i <= fields@.len(),
            all == field_views(fields@),
            texts(out@) == field_elements(all.take(i as int)),
        decreases fields@.len() - i,
    {
        proof {
            assert(all.take(i + 1).drop_last() =~= all.take(i as int));
            assert(all.take(i + 1).last() == all[i as int]);
        }
        let ghost before = texts(out@);
        match header_text(fields[i].as_slice()) {
            Some(text) => push_elements(&mut out, text),
            None => {
                assert(before + Seq::<Seq<char>>::empty() =~= before);
            },
        }
        i += 1;
    }
    assert(all.take(i as int) =~= all);
    out
}

/// Whether a name can stand in a list: it is not empty and holds neither a comma
/// nor white space.
pub open spec fn is_listable(name: Seq<char>) -> bool {
    &&& name.len() > 0
    &&& forall|i: int| 0 <= i < name.len() ==> #[trigger] name[i] != ',' && !is_space(name[i])
}

proof fn lemma_end_shift(pre: Seq<char>, t: Seq<char>, i: int)
    requires
        0 <= i <= t.len(),
    ensures
        element_end(pre + t, pre.len() + i) == pre.len() + element_end(t, i),
    decreases t.len() - i,
{
    if i < t.len() {
        assert((pre + t)[pre.len() + i] == t[i]);
        if t[i] != ',' {
            lemma_end_shift(pre, t, i + 1);
        }
    }
}

proof fn lemma_elements_shift(pre: Seq<char>, t: Seq<char>, i: int)
    requires
        0 <= i,
    ensures
        elements_from(pre + t, pre.len() + i) == elements_from(t, i),
    decreases t.len() + 1 - i,
{
    if i <= t.len() {
        lemma_end_shift(pre, t, i);
        lemma_element_end(t, i);
        let end = element_end(t, i);
        assert((pre + t).subrange(pre.len() + i, pre.len() + end) =~= t.subrange(i, end));
        lemma_elements_shift(pre, t, end + 1);
    }
}

/// An element without commas ends where it ends.
proof fn lemma_end_of_name(name: Seq<char>, rest: Seq<char>, i: int)
    requires
        0 <= i <= name.len(),
        forall|j: int| 0 <= j < name.len() ==> #[trigger] name[j] != ',',
        rest.len() == 0 || rest[0] == ',',
    ensures
        element_end(name + rest, i) == name.len(),
    decreases name.len() - i,
{
    if i < name.len() {
        assert((name + rest)[i] == name[i]);
        lemma_end_of_name(name, rest, i + 1);
    } else if rest.len() > 0 {
        assert((name + rest)[i] == rest[0]);
    }
}

/// A leading space does not matter.
proof fn lemma_leading_space(t: Seq<char>)
    ensures
        elements(seq![' '] + t) == elements(t),
{
    let s = seq![' '] + t;
    lemma_end_shift(seq![' '], t, 0);
    lemma_element_end(t, 0);
    let end = element_end(t, 0);
    assert(s[0] == ' ');
    assert(element_end(s, 0) == element_end(s, 1));
    assert(s.subrange(0, end + 1) =~= seq![' '] + t.subrange(0, end));
    let e = seq![' '] + t.subrange(0, end);
    assert(e.drop_first() =~= t.subrange(0, end));
    assert(trim_start(e) == trim_start(t.subrange(0, end)));
    lemma_elements_shift(seq![' '], t, end + 1);
}

/// A name without white space is trimmed already.
proof fn lemma_trimmed_name(name: Seq<char>)
    requires
        is_listable(name),
    ensures
        trimmed(name) == name,
{
    assert(!is_space(name[0]));
    assert(!is_space(name.last()));
}

proof fn lemma_joined_front(names: Seq<Seq<char>>)
    requires
        names.len() >= 2,
    ensures
        joined(names) == names[0] + (seq![','] + (seq![' '] + joined(names.drop_first()))),
    decreases names.len(),
{
    let tail = names.drop_first();
    if names.len() == 2 {
        assert(names.drop_last().len() == 1);
        assert(joined(names.drop_last()) == names[0]);
        assert(tail.len() == 1 && tail[0] == names[1]);
        assert(joined(names) =~= names[0] + (seq![','] + (seq![' '] + joined(tail))));
    } else {
        let front = names.drop_last();
        lemma_joined_front(front);
        assert(front.drop_first() =~= tail.drop_last());
        assert(tail.last() == names.last());
        assert(joined(names) =~= names[0] + (seq![','] + (seq![' '] + joined(tail))));
    }
}

/// Law: a list of names reads back as those names, in order.
pub proof fn lemma_list_round_trip(names: Seq<Seq<char>>)
    requires
        forall|i: int| 0 <= i < names.len() ==> is_listable(#[trigger] names[i]),
    ensures
        elements(joined(names)) == names,
    decreases names.len(),
{
    reveal_with_fuel(elements_from, 2);
    if names.len() == 0 {
        let s = joined(names);
        assert(s.subrange(0, 0) =~= Seq::empty());
        assert(trimmed(Seq::<char>::empty()) =~= Seq::empty());
        assert(elements(s) =~= names);
    } else {
        let first = names[0];
        lemma_trimmed_name(first);
        if names.len() == 1 {
            let s = joined(names);
            assert(s =~= first + Seq::empty());
            lemma_end_of_name(first, Seq::empty(), 0);
            assert(s.subrange(0, s.len() as int) =~= first);
            assert(elements(s) =~= names);
        } else {
            let tail = names.drop_first();
            assert forall|i: int| 0 <= i < tail.len() implies is_listable(#[trigger] tail[i]) by {
                assert(tail[i] == names[i + 1]);
            }
            lemma_list_round_trip(tail);
            lemma_joined_front(names);
            let rest = seq![' '] + joined(tail);
            let s = first + (seq![','] + rest);
            lemma_end_of_name(first, seq![','] + rest, 0);
            assert(s.subrange(0, first.len() as int) =~= first);
            assert(s =~= (first + seq![',']) + rest);
            lemma_elements_shift(first + seq![','], rest, 0);
            lemma_leading_space(joined(tail));
            assert(elements(s) =~= seq![first] + tail);
            assert(seq![first] + tail =~= names);
        }
    }
}

proof fn lemma_trim_front(pre: Seq<char>, t: Seq<char>)
    requires
        forall|i: int| 0 <= i < pre.len() ==> is_space(#[trigger] pre[i]),
        t.len() > 0 ==> !is_space(t[0]),
    ensures
        trim_start(pre + t) == t,
    decreases pre.len(),
{
    if pre.len() > 0 {
        assert((pre + t)[0] == pre[0]);
        assert((pre + t).drop_first() =~= pre.drop_first() + t);
        lemma_trim_front(pre.drop_first(), t);
    } else {
        assert(pre + t =~= t);
    }
}

proof fn lemma_trim_back(t: Seq<char>, post: Seq<char>)
    requires
        forall|i: int| 0 <= i < post.len() ==> is_space(#[trigger] post[i]),
        t.len() > 0 ==> !is_space(t.last()),
    ensures
        trim_end(t + post) == t,
    decreases post.len(),
{
    if post.len() > 0 {
        assert((t + post).last() == post.last());
        assert((t + post).drop_last() =~= t + post.drop_last());
        lemma_trim_back(t, post.drop_last());
    } else {
        assert(t + post =~= t);
    }
}

/// Law: white space around an element is dropped, and nothing else of it. One that is
/// all white space is empty.
pub proof fn lemma_trimmed(pre: Seq<char>, t: Seq<char>, post: Seq<char>)
    requires
        forall|i: int| 0 <= i < pre.len() ==> is_space(#[trigger] pre[i]),
        forall|i: int| 0 <= i < post.len() ==> is_space(#[trigger] post[i]),
        t.len() > 0 ==> !is_space(t[0]) && !is_space(t.last()),
    ensures
        t.len() > 0 ==> trimmed(pre + t + post) == t,
        trimmed(pre).len() == 0,
{
    let none = Seq::<char>::empty();
    lemma_trim_front(pre, none);
    assert(pre + none =~= pre);
    if t.len() > 0 {
        assert(pre + t + post =~= pre + (t + post));
        lemma_trim_front(pre, t + post);
        lemma_trim_back(t, post);
    }
}

/// Law: white space is a tab, a line feed and the like, a space, or one of the spaces
/// beyond ASCII.
pub proof fn lemma_space(c: char)
    ensures
        c as int <= 0x7f ==> is_space(c) == (c as int == 0x20 || 0x09 <= c as int <= 0x0d),
        c as int > 0x7f ==> is_space(c) == (c as int == 0x85 || c as int == 0xa0 || c as int
            == 0x1680 || 0x2000 <= c as int <= 0x200a || c as int == 0x2028 || c as int == 0x2029
            || c as int == 0x202f || c as int == 0x205f || c as int == 0x3000),
{
}

proof fn lemma_end_before_comma(a: Seq<char>, b: Seq<char>, i: int)
    requires
        0 <= i <= a.len(),
    ensures
        element_end(a.push(',') + b, i) == element_end(a, i),
    decreases a.len() - i,
{
    assert((a.push(',') + b)[i] == if i < a.len() {
        a[i]
    } else {
        ','
    });
    if i < a.len() && a[i] != ',' {
        lemma_end_before_comma(a, b, i + 1);
    }
}

proof fn lemma_elements_parted(a: Seq<char>, b: Seq<char>, i: int)
    requires
        0 <= i <= a.len(),
    ensures
        elements_from(a.push(',') + b, i) == elements_from(a, i) + elements(b),
    decreases a.len() - i,
{
    let s = a.push(',') + b;
    lemma_end_before_comma(a, b, i);
    lemma_element_end(a, i);
    let end = element_end(a, i);
    assert(s.subrange(i, end) =~= a.subrange(i, end));
    let first = listed(trimmed(a.subrange(i, end)));
    if end < a.len() {
        lemma_elements_parted(a, b, end + 1);
        assert(elements_from(s, i) =~= first + (elements_from(a, end + 1) + elements(b)));
    } else {
        lemma_elements_shift(a.push(','), b, 0);
        assert(elements_from(a, end + 1) =~= Seq::empty());
    }
    assert(elements_from(s, i) =~= elements_from(a, i) + elements(b));
}

/// Law: a comma parts a list: the elements before it come first, and those after it
/// follow.
pub proof fn lemma_comma_parts(a: Seq<char>, b: Seq<char>)
    ensures
        elements(a.push(',') + b) == elements(a) + elements(b),
{
    lemma_elements_parted(a, b, 0);
}

/// Law: a list without a comma has one element, without the white space around it, and
/// none where nothing else is there.
pub proof fn lemma_one_element(s: Seq<char>)
    requires
        forall|i: int| 0 <= i < s.len() ==> #[trigger] s[i] != ',',
    ensures
        trimmed(s).len() > 0 ==> elements(s) == seq![trimmed(s)],
        trimmed(s).len() == 0 ==> elements(s).len() == 0,
{
    reveal_with_fuel(elements_from, 2);
    lemma_end_of_name(s, Seq::empty(), 0);
    assert(s + Seq::empty() =~= s);
    assert(s.subrange(0, s.len() as int) =~= s);
    assert(elements(s) =~= listed(trimmed(s)));
}

/// Law: names in a row have a comma and a space between them.
pub proof fn lemma_joined(names: Seq<Seq<char>>, name: Seq<char>)
    ensures
        joined(Seq::empty()).len() == 0,
        joined(seq![name]) == name,
        names.len() > 0 ==> joined(names.push(name)) == joined(names) + ", "@ + name,
{
    reveal_strlit(", ");
    assert(", "@ =~= seq![',', ' ']);
    assert(names.push(name).drop_last() =~= names);
}

/// Law: the elements of several header fields come one field after the other. A field
/// with a byte that is no visible ASCII, space or tab is passed over as a whole.
pub proof fn lemma_fields_in_turn(fields: Seq<Seq<u8>>, field: Seq<u8>)
    ensures
        field_elements(Seq::empty()).len() == 0,
        (forall|i: int|
            0 <= i < field.len() ==> #[trigger] field[i] == 9 || 0x20 <= field[i] <= 0x7e)
            ==> field_elements(fields.push(field)) == field_elements(fields) + elements(
            decode_utf8(field),
        ),
        (exists|i: int|
            0 <= i < field.len() && #[trigger] field[i] != 9 && (field[i] < 0x20 || field[i]
                > 0x7e)) ==> field_elements(fields.push(field)) == field_elements(fields),
{
    assert(fields.push(field).drop_last() =~= fields);
    if exists|i: int|
        0 <= i < field.len() && #[trigger] field[i] != 9 && (field[i] < 0x20 || field[i] > 0x7e) {
        let i = choose|i: int|
            0 <= i < field.len() && #[trigger] field[i] != 9 && (field[i] < 0x20 || field[i]
                > 0x7e);
        assert(!is_header_text(field[i]));
        assert(!all_text(field));
        assert(field_elements(fields.push(field)) =~= field_elements(fields));
    }
}

} // verus!
