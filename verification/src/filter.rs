//! The list of names that picks the arguments of the default key: names
//! separated by commas, each with any white space around it.
use vstd::prelude::*;
use vstd::string::*;
use crate::text::{same_text, texts};

verus! {

/// Whether a character is one of the six ASCII characters that count as
/// white space: space, tab, line feed, vertical tab, form feed and carriage
/// return.
pub open spec fn ascii_space(c: char) -> bool {
    c == ' ' || c == '\t' || c == '\n' || c == '\u{b}' || c == '\u{c}' || c == '\r'
}

/// Whether a character is an ASCII letter, an ASCII digit or an underscore.
pub open spec fn ascii_word(c: char) -> bool {
    ||| 'a' as u32 <= c as u32 <= 'z' as u32
    ||| 'A' as u32 <= c as u32 <= 'Z' as u32
    ||| '0' as u32 <= c as u32 <= '9' as u32
    ||| c == '_'
}

/// Whether `char::is_whitespace` holds of a character that is neither ASCII
/// white space nor an ASCII letter, digit or underscore.
pub uninterp spec fn other_white_space(c: char) -> bool;

/// Whether `char::is_whitespace` holds of a character: whether Unicode
/// counts it as white space. The six ASCII characters do count, ASCII
/// letters, digits and the underscore do not.
pub open spec fn white_space(c: char) -> bool {
    ascii_space(c) || (!ascii_word(c) && other_white_space(c))
}

/// Calls `char::is_whitespace` of the standard library. It goes by the
/// character alone; it holds of space, tab, line feed, vertical tab, form
/// feed and carriage return, and of no ASCII letter, digit or underscore.
#[verifier::external_body]
fn is_whitespace(c: char) -> (r: bool)
    ensures
        r == (ascii_space(c) || (!ascii_word(c) && other_white_space(c))),
{
    c.is_whitespace()
}

/// The number of characters before the first comma, or the length where
/// there is no comma.
pub open spec fn first_piece_len(s: Seq<char>) -> nat
    decreases s.len(),
{
    if s.len() == 0 || s[0] == ',' {
        0
    } else {
        1 + first_piece_len(s.skip(1))
    }
}

/// The pieces between the commas of a text. A text without a comma is one
/// piece, an empty one too.
pub open spec fn split_commas(s: Seq<char>) -> Seq<Seq<char>>
    decreases s.len(),
{
    let n = first_piece_len(s);
    if n >= s.len() {
        seq![s]
    } else {
        seq![s.take(n as int)] + split_commas(s.skip(n as int + 1))
    }
}

/// A text without the white space at its start.
pub open spec fn trim_start(s: Seq<char>) -> Seq<char>
    decreases s.len(),
{
    if s.len() > 0 && white_space(s[0]) {
        trim_start(s.skip(1))
    } else {
        s
    }
}

/// A text without the white space at its end.
pub open spec fn trim_end(s: Seq<char>) -> Seq<char>
    decreases s.len(),
{
    if s.len() > 0 && white_space(s.last()) {
        trim_end(s.drop_last())
    } else {
        s
    }
}

/// A text without the white space at either end.
pub open spec fn trim(s: Seq<char>) -> Seq<char> {
    trim_end(trim_start(s))
}

/// Each of several texts without the white space at either end.
pub open spec fn trim_all(pieces: Seq<Seq<char>>) -> Seq<Seq<char>> {
    Seq::new(pieces.len(), |i: int| trim(pieces[i]))
}

/// The names that a comma-separated list holds.
pub open spec fn name_list(key: Seq<char>) -> Seq<Seq<char>> {
    trim_all(split_commas(key))
}

/// Whether the argument at `index` takes part in the key: every argument
/// where there is no list, else those whose name the list holds.
pub open spec fn chosen(names: Seq<Seq<char>>, filter: Option<Seq<Seq<char>>>, index: int) -> bool {
    match filter {
        None => true,
        Some(list) => 0 <= index < names.len() && list.contains(names[index]),
    }
}

/// Those of `items` whose position is chosen, in order.
pub open spec fn selected<T>(
    items: Seq<T>,
    names: Seq<Seq<char>>,
    filter: Option<Seq<Seq<char>>>,
) -> Seq<T>
    decreases items.len(),
{
    if items.len() == 0 {
        Seq::empty()
    } else {
        let init = selected(items.drop_last(), names, filter);
        if chosen(names, filter, items.len() - 1) {
            init.push(items.last())
        } else {
            init
        }
    }
}

/// Without a list of names every item is chosen.
pub proof fn lemma_selected_all<T>(items: Seq<T>, names: Seq<Seq<char>>)
    ensures
        selected(items, names, None) == items,
    decreases items.len(),
{
    if items.len() > 0 {
        lemma_selected_all(items.drop_last(), names);
        assert(items.drop_last().push(items.last()) =~= items);
    }
}

/// Items whose names the list holds are all chosen.
pub proof fn lemma_selected_listed<T>(items: Seq<T>, names: Seq<Seq<char>>, list: Seq<Seq<char>>)
    requires
        items.len() <= names.len(),
        forall|k: int| 0 <= k < items.len() ==> list.contains(#[trigger] names[k]),
    ensures
        selected(items, names, Some(list)) == items,
    decreases items.len(),
{
    if items.len() > 0 {
        lemma_selected_listed(items.drop_last(), names, list);
        assert(list.contains(names[items.len() - 1]));
        assert(items.drop_last().push(items.last()) =~= items);
    }
}

/// Which items are chosen depends on the names of the items alone.
pub proof fn lemma_selected_by_own_names<T>(
    items: Seq<T>,
    names: Seq<Seq<char>>,
    others: Seq<Seq<char>>,
    list: Seq<Seq<char>>,
)
    requires
        items.len() <= names.len(),
        items.len() <= others.len(),
        forall|k: int| 0 <= k < items.len() ==> names[k] == others[k],
    ensures
        selected(items, names, Some(list)) == selected(items, others, Some(list)),
    decreases items.len(),
{
    if items.len() > 0 {
        lemma_selected_by_own_names(items.drop_last(), names, others, list);
    }
}

/// An item whose name the list does not hold takes no part: what is chosen
/// is what would be chosen if the item were not there.
pub proof fn lemma_selected_skips_unlisted<T>(
    items: Seq<T>,
    names: Seq<Seq<char>>,
    list: Seq<Seq<char>>,
    i: int,
)
    requires
        items.len() <= names.len(),
        0 <= i < items.len(),
        !list.contains(names[i]),
    ensures
        selected(items, names, Some(list)) == selected(
            items.remove(i),
            names.remove(i),
            Some(list),
        ),
    decreases items.len(),
{
    let init = items.drop_last();
    let last = items.len() - 1;
    if i == last {
        assert(items.remove(i) =~= init);
        lemma_selected_by_own_names(init, names, names.remove(i), list);
    } else {
        lemma_selected_skips_unlisted(init, names, list, i);
        let fewer = items.remove(i);
        assert(fewer.drop_last() =~= init.remove(i));
        assert(fewer.last() == items.last());
        assert(names.remove(i)[last - 1] == names[last]);
    }
}

/// A text whose first comma stands at `j`, or that has none and ends at
/// `j`, has a first piece of `j` characters.
proof fn lemma_first_piece(s: Seq<char>, j: int)
    requires
        0 <= j <= s.len(),
        forall|k: int| 0 <= k < j ==> s[k] != ',',
        j == s.len() || s[j] == ',',
    ensures
        first_piece_len(s) == j,
    decreases j,
{
    if j > 0 {
        let rest = s.skip(1);
        assert forall|k: int| 0 <= k < j - 1 implies rest[k] != ',' by {
            assert(rest[k] == s[k + 1]);
        }
        lemma_first_piece(rest, j - 1);
    }
}

/// White space at the start of a text makes no difference to what is left
/// when the start is trimmed.
proof fn lemma_trim_start_skips(s: Seq<char>, j: int)
    requires
        0 <= j <= s.len(),
        forall|k: int| 0 <= k < j ==> white_space(s[k]),
    ensures
        trim_start(s) == trim_start(s.skip(j)),
    decreases j,
{
    if j > 0 {
        let rest = s.skip(1);
        assert forall|k: int| 0 <= k < j - 1 implies white_space(rest[k]) by {
            assert(rest[k] == s[k + 1]);
        }
        lemma_trim_start_skips(rest, j - 1);
        assert(rest.skip(j - 1) =~= s.skip(j));
    } else {
        assert(s.skip(0) =~= s);
    }
}

/// White space at the end of a text makes no difference to what is left
/// when the end is trimmed.
proof fn lemma_trim_end_drops(s: Seq<char>, j: int)
    requires
        0 <= j <= s.len(),
        forall|k: int| j <= k < s.len() ==> white_space(s[k]),
    ensures
        trim_end(s) == trim_end(s.take(j)),
    decreases s.len() - j,
{
    if j < s.len() {
        let rest = s.drop_last();
        lemma_trim_end_drops(rest, j);
        assert(rest.take(j) =~= s.take(j));
    } else {
        assert(s.take(j) =~= s);
    }
}

/// A text without commas is one piece.
pub proof fn lemma_split_one_piece(s: Seq<char>)
    requires
        !s.contains(','),
    ensures
        split_commas(s) == seq![s],
{
    assert forall|k: int| 0 <= k < s.len() implies s[k] != ',' by {
        assert(s.contains(s[k]));
    }
    lemma_first_piece(s, s.len() as int);
}

/// A list of two pieces with a comma between them holds the two pieces,
/// each without the white space around it.
pub proof fn lemma_name_list_of_two(a: Seq<char>, b: Seq<char>)
    requires
        !a.contains(','),
        !b.contains(','),
    ensures
        name_list(a + seq![','] + b) == seq![trim(a), trim(b)],
{
    let whole = a + seq![','] + b;
    assert forall|k: int| 0 <= k < a.len() implies whole[k] != ',' by {
        assert(a.contains(a[k]));
    }
    lemma_first_piece(whole, a.len() as int);
    assert(whole.take(a.len() as int) =~= a);
    assert(whole.skip(a.len() as int + 1) =~= b);
    lemma_split_one_piece(b);
    assert(split_commas(whole) =~= seq![a, b]);
    assert(name_list(whole) =~= seq![trim(a), trim(b)]);
}

/// Whether a text is made of ASCII letters, ASCII digits and underscores.
pub open spec fn is_word(s: Seq<char>) -> bool {
    forall|i: int| 0 <= i < s.len() ==> ascii_word(#[trigger] s[i])
}

/// A text made of ASCII letters, digits and underscores has no white space
/// to lose.
pub proof fn lemma_trim_word(s: Seq<char>)
    requires
        is_word(s),
    ensures
        trim(s) == s,
{
    if s.len() > 0 {
        assert(ascii_word(s[0]));
        assert(ascii_word(s[s.len() - 1]));
        assert(s.last() == s[s.len() - 1]);
    }
}

/// The list `a, b` of two names made of ASCII letters, digits and
/// underscores holds exactly `a` and `b`.
pub proof fn lemma_name_list_of_words(a: Seq<char>, b: Seq<char>)
    requires
        is_word(a),
        is_word(b),
    ensures
        name_list(a + ", "@ + b) == seq![a, b],
{
    reveal_strlit(", ");
    let padded = seq![' '] + b;
    assert(", "@ =~= seq![',', ' ']);
    assert(a + ", "@ + b =~= a + seq![','] + padded);
    assert(!a.contains(',')) by {
        if a.contains(',') {
            let k = choose|k: int| 0 <= k < a.len() && a[k] == ',';
            assert(ascii_word(a[k]));
        }
    }
    assert(!padded.contains(',')) by {
        if padded.contains(',') {
            let k = choose|k: int| 0 <= k < padded.len() && padded[k] == ',';
            if k > 0 {
                assert(padded[k] == b[k - 1]);
                assert(ascii_word(b[k - 1]));
            }
        }
    }
    lemma_name_list_of_two(a, padded);
    lemma_trim_word(a);
    lemma_trim_word(b);
    assert(trim_start(padded) == trim_start(b)) by {
        assert(ascii_space(padded[0]));
        assert(padded.skip(1) =~= b);
    }
}

/// A text without the white space at either end.
fn trimmed(s: &str) -> (r: String)
    ensures
        r@ == trim(s@),
{
    let n: usize = s.unicode_len();
    let mut start: usize = 0;
    while start < n && is_whitespace(s.get_char(start))
        invariant
            start <= n,
            n == s@.len(),
            forall|k: int| 0 <= k < start ==> white_space(s@[k]),
        decreases n - start,
    {
        start = start + 1;
    }
    let mut end: usize = n;
    while end > start && is_whitespace(s.get_char(end - 1))
        invariant
            start <= end <= n,
            n == s@.len(),
            forall|k: int| end <= k < n ==> white_space(s@[k]),
        decreases end,
    {
        end = end - 1;
    }
    proof {
        let front = s@.skip(start as int);
        lemma_trim_start_skips(s@, start as int);
        assert(trim_start(front) == front) by {
            if front.len() > 0 {
                assert(front[0] == s@[start as int]);
            }
        }
        assert forall|k: int| end - start <= k < front.len() implies white_space(front[k]) by {
            assert(front[k] == s@[k + start]);
        }
        lemma_trim_end_drops(front, end - start);
        let kept = front.take(end - start);
        assert(trim_end(kept) == kept) by {
            if kept.len() > 0 {
                assert(kept.last() == s@[end - 1]);
            }
        }
        assert(kept =~= s@.subrange(start as int, end as int));
    }
    String::from_str(s.substring_char(start, end))
}

/// Reads a comma-separated list of names.
pub fn name_filter(key: &str) -> (r: Vec<String>)
    ensures
        texts(r@) == name_list(key@),
{
    let n: usize = key.unicode_len();
    let mut out: Vec<String> = Vec::new();
    let mut start: usize = 0;
    let mut i: usize = 0;
    proof {
        assert(key@.skip(0) =~= key@);
        assert(texts(out@) + name_list(key@.skip(0)) =~= name_list(key@));
    }
    while i < n
        invariant
            start <= i <= n,
            n == key@.len(),
            forall|k: int| start <= k < i ==> key@[k] != ',',
            texts(out@) + name_list(key@.skip(start as int)) == name_list(key@),
        decreases n - i,
    {
        if key.get_char(i) == ',' {
            let piece = trimmed(key.substring_char(start, i));
            proof {
                let rest = key@.skip(start as int);
                assert forall|k: int| 0 <= k < i - start implies rest[k] != ',' by {
                    assert(rest[k] == key@[k + start]);
                }
                assert(rest[i - start] == key@[i as int]);
                lemma_first_piece(rest, i - start);
                assert(rest.take(i - start) =~= key@.subrange(start as int, i as int));
                assert(rest.skip(i - start + 1) =~= key@.skip(i + 1));
                assert(name_list(rest) =~= seq![piece@] + name_list(key@.skip(i + 1)));
                assert(texts(out@.push(piece)) =~= texts(out@) + seq![piece@]);
            }
            out.push(piece);
            start = i + 1;
        }
        i = i + 1;
    }
    let piece = trimmed(key.substring_char(start, n));
    proof {
        let rest = key@.skip(start as int);
        assert forall|k: int| 0 <= k < n - start implies rest[k] != ',' by {
            assert(rest[k] == key@[k + start]);
        }
        lemma_first_piece(rest, n - start);
        assert(rest =~= key@.subrange(start as int, n as int));
        assert(name_list(rest) =~= seq![piece@]);
        assert(texts(out@.push(piece)) =~= texts(out@) + seq![piece@]);
    }
    out.push(piece);
    out
}

/// Whether a list of names holds `name`. The list is searched in order: it
/// is no longer than a list of parameters, and names are compared by their
/// characters.
pub fn has_name(list: &Vec<String>, name: &str) -> (r: bool)
    ensures
        r == texts(list@).contains(name@),
{
    let mut i: usize = 0;
    while i < list.len()
        invariant
            i <= list.len(),
            forall|k: int| 0 <= k < i ==> texts(list@)[k] != name@,
        decreases list.len() - i,
    {
        if same_text(list[i].as_str(), name) {
            assert(texts(list@)[i as int] == name@);
            return true;
        }
        i = i + 1;
    }
    false
}

} // verus!
