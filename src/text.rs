use vstd::prelude::*;

use crate::element::strings_view;

verus! {

/// The characters with the Unicode `White_Space` property.
pub open spec fn is_white_space(c: char) -> bool {
    ||| '\u{9}' <= c <= '\u{d}'
    ||| c == ' '
    ||| c == '\u{85}'
    ||| c == '\u{a0}'
    ||| c == '\u{1680}'
    ||| '\u{2000}' <= c <= '\u{200a}'
    ||| c == '\u{2028}'
    ||| c == '\u{2029}'
    ||| c == '\u{202f}'
    ||| c == '\u{205f}'
    ||| c == '\u{3000}'
}

/// Relies on `char::is_whitespace`, documented as true exactly for the
/// characters with the Unicode `White_Space` property.
#[verifier::external_body]
fn char_is_whitespace(c: char) -> (r: bool)
    ensures
        r == is_white_space(c),
{
    c.is_whitespace()
}

/// Whether trimming removes `c`: any white space, or only the space character.
pub open spec fn trimmed_char(c: char, spaces_only: bool) -> bool {
    if spaces_only {
        c == ' '
    } else {
        is_white_space(c)
    }
}

/// `s` without its leading trimmed characters.
pub open spec fn strip_leading(s: Seq<char>, spaces_only: bool) -> Seq<char>
    decreases s.len(),
{
    if s.len() > 0 && trimmed_char(s[0], spaces_only) {
        strip_leading(s.drop_first(), spaces_only)
    } else {
        s
    }
}

/// `s` without its trailing trimmed characters.
pub open spec fn strip_trailing(s: Seq<char>, spaces_only: bool) -> Seq<char>
    decreases s.len(),
{
    if s.len() > 0 && trimmed_char(s.last(), spaces_only) {
        strip_trailing(s.drop_last(), spaces_only)
    } else {
        s
    }
}

/// `s` without its leading and trailing trimmed characters.
pub open spec fn trim(s: Seq<char>, spaces_only: bool) -> Seq<char> {
    strip_trailing(strip_leading(s, spaces_only), spaces_only)
}

fn is_trimmed_char(c: char, spaces_only: bool) -> (r: bool)
    ensures
        r == trimmed_char(c, spaces_only),
{
    if spaces_only {
        c == ' '
    } else {
        char_is_whitespace(c)
    }
}

/// The character bounds `(a, b)` of `trim(s@)` inside `s`.
fn trim_bounds(s: &str, spaces_only: bool) -> (r: (usize, usize))
    ensures
        r.0 <= r.1 <= s@.len(),
        s@.subrange(r.0 as int, r.1 as int) == trim(s@, spaces_only),
{
    let n = s.unicode_len();
    let mut a: usize = 0;
    assert(s@.subrange(0, n as int) =~= s@);
    while a < n && is_trimmed_char(s.get_char(a), spaces_only)
        invariant
            a <= n == s@.len(),
            strip_leading(s@.subrange(a as int, n as int), spaces_only) == strip_leading(
                s@,
                spaces_only,
            ),
        decreases n - a,
    {
        assert(s@.subrange(a as int, n as int).drop_first() =~= s@.subrange(a + 1, n as int));
        a = a + 1;
    }
    assert(strip_leading(s@.subrange(a as int, n as int), spaces_only) == s@.subrange(
        a as int,
        n as int,
    ));
    let mut b: usize = n;
    while b > a && is_trimmed_char(s.get_char(b - 1), spaces_only)
        invariant
            a <= b <= n == s@.len(),
            strip_leading(s@, spaces_only) == s@.subrange(a as int, n as int),
            strip_trailing(s@.subrange(a as int, b as int), spaces_only) == trim(s@, spaces_only),
        decreases b,
    {
        assert(s@.subrange(a as int, b as int).drop_last() =~= s@.subrange(a as int, b - 1));
        b = b - 1;
    }
    assert(strip_trailing(s@.subrange(a as int, b as int), spaces_only) == s@.subrange(
        a as int,
        b as int,
    ));
    (a, b)
}

/// Returns `input` without its leading and trailing space characters.
pub fn trim_spaces(input: &str) -> (r: &str)
    ensures
        r@ == trim(input@, true),
{
    let (a, b) = trim_bounds(input, true);
    input.substring_char(a, b)
}

/// The lines of `s`, split at each newline; there is always at least one.
pub open spec fn split_lines(s: Seq<char>) -> Seq<Seq<char>>
    decreases s.len(),
{
    if s.len() == 0 {
        seq![Seq::empty()]
    } else {
        let init = split_lines(s.drop_last());
        if s.last() == '\n' {
            init.push(Seq::empty())
        } else {
            init.update(init.len() - 1, init.last().push(s.last()))
        }
    }
}

/// A line that holds nothing but white space.
pub open spec fn is_blank(line: Seq<char>) -> bool {
    trim(line, false).len() == 0
}

/// What follows the first space of `t`; empty where `t` has no space.
pub open spec fn after_first_space(t: Seq<char>) -> Seq<char>
    decreases t.len(),
{
    if t.len() == 0 {
        Seq::empty()
    } else if t[0] == ' ' {
        t.drop_first()
    } else {
        after_first_space(t.drop_first())
    }
}

/// The item of one list line: the trimmed line with everything up to and
/// including its first space (the marker) removed.
pub open spec fn item_of(line: Seq<char>) -> Seq<char> {
    after_first_space(trim(line, false))
}

/// The items of a sequence of list lines: one per non-blank line, in order.
pub open spec fn items_of_lines(lines: Seq<Seq<char>>) -> Seq<Seq<char>>
    decreases lines.len(),
{
    if lines.len() == 0 {
        Seq::empty()
    } else {
        let rest = items_of_lines(lines.drop_last());
        if is_blank(lines.last()) {
            rest
        } else {
            rest.push(item_of(lines.last()))
        }
    }
}

/// The items of a block of list lines.
pub open spec fn list_block_items(block: Seq<char>) -> Seq<Seq<char>> {
    items_of_lines(split_lines(block))
}

/// Appends the item of `line` to `items`, unless the line is blank.
fn push_item(items: &mut Vec<String>, line: &str)
    ensures
        strings_view(final(items)@) == if is_blank(line@) {
            strings_view(old(items)@)
        } else {
            strings_view(old(items)@).push(item_of(line@))
        },
{
    let (a, b) = trim_bounds(line, false);
    if a == b {
        return ;
    }
    let ghost t = line@.subrange(a as int, b as int);
    let mut k: usize = a;
    while k < b && line.get_char(k) != ' '
        invariant
            a <= k <= b <= line@.len(),
            after_first_space(line@.subrange(k as int, b as int)) == after_first_space(t),
        decreases b - k,
    {
        assert(line@.subrange(k as int, b as int).drop_first() =~= line@.subrange(
            k + 1,
            b as int,
        ));
        k = k + 1;
    }
    let item = if k == b {
        String::new()
    } else {
        assert(line@.subrange(k as int, b as int).drop_first() =~= line@.subrange(
            k + 1,
            b as int,
        ));
        String::from_str(line.substring_char(k + 1, b))
    };
    assert(item@ == item_of(line@));
    items.push(item);
    assert(strings_view(items@) =~= strings_view(old(items)@).push(item_of(line@)));
}

/// Splits a block of list lines into its items: one for each non-blank line,
/// in line order, being the trimmed line after its first space.
pub fn list_items(block: &str) -> (r: Vec<String>)
    ensures
        strings_view(r@) == list_block_items(block@),
{
    let n = block.unicode_len();
    let mut items: Vec<String> = Vec::new();
    let mut start: usize = 0;
    let mut i: usize = 0;
    let ghost mut done: Seq<Seq<char>> = Seq::empty();
    assert(block@.take(0) =~= Seq::empty());
    assert(split_lines(Seq::empty()) =~= done.push(block@.subrange(0, 0)));
    assert(strings_view(items@) =~= Seq::empty());
    while i < n
        invariant
            start <= i <= n == block@.len(),
            split_lines(block@.take(i as int)) == done.push(block@.subrange(start as int, i as int)),
            strings_view(items@) == items_of_lines(done),
        decreases n - i,
    {
        let ghost prefix = block@.take(i + 1);
        assert(prefix.drop_last() =~= block@.take(i as int));
        let c = block.get_char(i);
        if c == '\n' {
            let line = block.substring_char(start, i);
            push_item(&mut items, line);
            proof {
                let d2 = done.push(block@.subrange(start as int, i as int));
                assert(d2.drop_last() =~= done);
                done = d2;
            }
            start = i + 1;
            assert(prefix.last() == c);
            assert(split_lines(prefix) == done.push(Seq::empty()));
            assert(block@.subrange(start as int, i + 1) =~= Seq::<char>::empty());
        } else {
            assert(block@.subrange(start as int, i + 1) =~= block@.subrange(
                start as int,
                i as int,
            ).push(c));
            assert(prefix.last() == c);
            let ghost init = done.push(block@.subrange(start as int, i as int));
            assert(split_lines(prefix) == init.update(init.len() - 1, init.last().push(c)));
            assert(split_lines(prefix) =~= done.push(block@.subrange(start as int, i + 1)));
        }
        i = i + 1;
    }
    let line = block.substring_char(start, n);
    push_item(&mut items, line);
    proof {
        let d2 = done.push(block@.subrange(start as int, n as int));
        assert(d2.drop_last() =~= done);
        assert(block@.take(n as int) =~= block@);
    }
    items
}

} // verus!
