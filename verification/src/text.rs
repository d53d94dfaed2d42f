//! Text operations, stated over sequences of characters.

use vstd::prelude::*;
use vstd::string::*;

verus! {

/// Whether `c` has the Unicode property `White_Space`.
pub open spec fn is_space(c: char) -> bool {
    let u = c as u32;
    ||| 0x09 <= u <= 0x0d
    ||| u == 0x20
    ||| u == 0x85
    ||| u == 0xa0
    ||| u == 0x1680
    ||| 0x2000 <= u <= 0x200a
    ||| u == 0x2028
    ||| u == 0x2029
    ||| u == 0x202f
    ||| u == 0x205f
    ||| u == 0x3000
}

/// The characters that are taken off the ends of a text.
#[derive(Clone, Copy, PartialEq, Eq, Structural, Debug)]
pub enum Edge {
    /// White space.
    Space,
    /// The character `/`.
    Slash,
}

/// Whether `c` is one of the characters that `edge` stands for.
pub open spec fn is_edge(c: char, edge: Edge) -> bool {
    match edge {
        Edge::Space => is_space(c),
        Edge::Slash => c == '/',
    }
}

/// `s` without the characters of `edge` at its two ends.
pub open spec fn stripped(s: Seq<char>, edge: Edge) -> Seq<char>
    decreases s.len(),
{
    if s.len() == 0 {
        s
    } else if is_edge(s.first(), edge) {
        stripped(s.drop_first(), edge)
    } else if is_edge(s.last(), edge) {
        stripped(s.drop_last(), edge)
    } else {
        s
    }
}

/// `s` without white space at its two ends.
pub open spec fn trimmed(s: Seq<char>) -> Seq<char> {
    stripped(s, Edge::Space)
}

/// The pieces of `s` between the occurrences of `separator`; always at least one.
pub open spec fn pieces(s: Seq<char>, separator: char) -> Seq<Seq<char>>
    decreases s.len(),
{
    if s.len() == 0 {
        seq![Seq::<char>::empty()]
    } else {
        let before = pieces(s.drop_last(), separator);
        if s.last() == separator {
            before.push(Seq::<char>::empty())
        } else {
            before.drop_last().push(before.last().push(s.last()))
        }
    }
}

/// The members of `parts`, one after the other, with `separator` between neighbours.
pub open spec fn joined(parts: Seq<Seq<char>>, separator: Seq<char>) -> Seq<char>
    decreases parts.len(),
{
    if parts.len() == 0 {
        Seq::<char>::empty()
    } else if parts.len() == 1 {
        parts[0]
    } else {
        joined(parts.drop_last(), separator) + separator + parts.last()
    }
}

/// What follows `prefix` in `s`, if `s` begins with it.
pub open spec fn after_prefix(s: Seq<char>, prefix: Seq<char>) -> Option<Seq<char>> {
    if prefix.is_prefix_of(s) {
        Some(s.skip(prefix.len() as int))
    } else {
        None
    }
}

/// `s` with `prefix` taken off its front as often as it stands there.
pub open spec fn without_prefixes(s: Seq<char>, prefix: Seq<char>) -> Seq<char>
    decreases s.len(),
{
    if prefix.len() > 0 && prefix.is_prefix_of(s) {
        without_prefixes(s.skip(prefix.len() as int), prefix)
    } else {
        s
    }
}

/// What stands before the first `c` in `s`; all of `s` if there is none.
pub open spec fn before_first(s: Seq<char>, c: char) -> Seq<char>
    decreases s.len(),
{
    if s.len() == 0 || s.first() == c {
        Seq::<char>::empty()
    } else {
        seq![s.first()] + before_first(s.drop_first(), c)
    }
}

/// What stands after the first `c` in `s`, if there is one.
pub open spec fn after_first(s: Seq<char>, c: char) -> Option<Seq<char>> {
    if s.contains(c) {
        Some(s.skip(before_first(s, c).len() as int + 1))
    } else {
        None
    }
}

/// What stands after the last `c` in `s`, if there is one.
pub open spec fn after_last(s: Seq<char>, c: char) -> Option<Seq<char>>
    decreases s.len(),
{
    if s.len() == 0 {
        None
    } else if s.last() == c {
        Some(Seq::<char>::empty())
    } else {
        match after_last(s.drop_last(), c) {
            Some(tail) => Some(tail.push(s.last())),
            None => None,
        }
    }
}

/// Whether `part` stands in `s` at position `at`.
pub open spec fn stands_at(s: Seq<char>, part: Seq<char>, at: int) -> bool {
    &&& 0 <= at
    &&& at + part.len() <= s.len()
    &&& s.subrange(at, at + part.len()) == part
}

/// Whether `part` stands somewhere in `s`.
pub open spec fn contains_text(s: Seq<char>, part: Seq<char>) -> bool {
    exists|at: int| stands_at(s, part, at)
}

/// The bytes that `c` takes up in UTF-8.
pub open spec fn width(c: char) -> nat {
    let u = c as u32;
    if u < 0x80 {
        1
    } else if u < 0x800 {
        2
    } else if u < 0x1_0000 {
        3
    } else {
        4
    }
}

/// The characters at the front of `s` that take up exactly `bytes` bytes in UTF-8.
/// `None` if `s` is shorter or a character lies across that boundary.
pub open spec fn front(s: Seq<char>, bytes: nat) -> Option<Seq<char>>
    decreases s.len(),
{
    if bytes == 0 {
        Some(Seq::<char>::empty())
    } else if s.len() == 0 || width(s.first()) > bytes {
        None
    } else {
        match front(s.drop_first(), (bytes - width(s.first())) as nat) {
            Some(rest) => Some(seq![s.first()] + rest),
            None => None,
        }
    }
}

/// The character sequences of a sequence of strings.
pub open spec fn texts(parts: Seq<String>) -> Seq<Seq<char>> {
    parts.map_values(|part: String| part@)
}

/// The character sequence of a string that may be absent.
pub open spec fn optional_text(text: Option<String>) -> Option<Seq<char>> {
    match text {
        Some(t) => Some(t@),
        None => None,
    }
}

/// A borrowed text that may be absent, as a character sequence.
pub open spec fn optional_str(text: Option<&str>) -> Option<Seq<char>> {
    match text {
        Some(t) => Some(t@),
        None => None,
    }
}

/// A borrow of a text that may be absent.
pub fn borrow_text(text: &Option<String>) -> (borrowed: Option<&str>)
    ensures
        optional_str(borrowed) == optional_text(*text),
{
    match text {
        Some(t) => Some(t.as_str()),
        None => None,
    }
}

/// The characters of `s`, in order.
pub fn characters(s: &str) -> (chars: Vec<char>)
    ensures
        chars@ == s@,
{
    let mut chars: Vec<char> = Vec::new();
    for c in it: s.chars()
        invariant
            chars@ == s@.take(it.index() as int),
            it.seq() == s@,
    {
        chars.push(c);
    }
    chars
}

/// Whether two texts hold the same characters.
pub fn same_text(a: &str, b: &str) -> (same: bool)
    ensures
        same == (a@ == b@),
{
    let left = characters(a);
    let right = characters(b);
    if left.len() != right.len() {
        return false;
    }
    let mut i: usize = 0;
    while i < left.len()
        invariant
            i <= left.len(),
            left.len() == right.len(),
            left@ == a@,
            right@ == b@,
            a@.take(i as int) == b@.take(i as int),
        decreases left.len() - i,
    {
        if left[i] != right[i] {
            assert(a@[i as int] != b@[i as int]);
            return false;
        }
        assert(a@.take(i + 1) == a@.take(i as int).push(a@[i as int]));
        assert(b@.take(i + 1) == b@.take(i as int).push(b@[i as int]));
        i = i + 1;
    }
    assert(a@.take(i as int) == a@);
    assert(b@.take(i as int) == b@);
    true
}

/// Whether `c` is one of the characters that `edge` stands for.
fn on_edge(c: char, edge: Edge) -> (yes: bool)
    ensures
        yes == is_edge(c, edge),
{
    match edge {
        Edge::Space => {
            let u: u32 = c as u32;
            (0x09 <= u && u <= 0x0d) || u == 0x20 || u == 0x85 || u == 0xa0 || u == 0x1680
                || (0x2000 <= u && u <= 0x200a) || u == 0x2028 || u == 0x2029 || u == 0x202f
                || u == 0x205f || u == 0x3000
        },
        Edge::Slash => c == '/',
    }
}

/// Takes the characters of `edge` off both ends of `s`.
pub fn strip<'a>(s: &'a str, edge: Edge) -> (rest: &'a str)
    ensures
        rest@ == stripped(s@, edge),
{
    let chars = characters(s);
    let mut from: usize = 0;
    assert(s@.subrange(0, s@.len() as int) == s@);
    while from < chars.len() && on_edge(chars[from], edge)
        invariant
            from <= chars.len(),
            chars@ == s@,
            stripped(s@, edge) == stripped(s@.subrange(from as int, s@.len() as int), edge),
        decreases chars.len() - from,
    {
        let ghost rest = s@.subrange(from as int, s@.len() as int);
        assert(rest.first() == s@[from as int]);
        assert(rest.drop_first() == s@.subrange(from + 1, s@.len() as int));
        from = from + 1;
    }
    let mut to: usize = chars.len();
    while to > from && on_edge(chars[to - 1], edge)
        invariant
            from <= to <= chars.len(),
            chars@ == s@,
            from < chars.len() ==> !is_edge(s@[from as int], edge),
            stripped(s@, edge) == stripped(s@.subrange(from as int, to as int), edge),
        decreases to,
    {
        let ghost rest = s@.subrange(from as int, to as int);
        assert(rest.first() == s@[from as int]);
        assert(rest.last() == s@[to - 1]);
        assert(rest.drop_last() == s@.subrange(from as int, to - 1));
        to = to - 1;
    }
    proof {
        let rest = s@.subrange(from as int, to as int);
        if from < to {
            assert(rest.first() == s@[from as int]);
            assert(rest.last() == s@[to - 1]);
        }
    }
    s.substring_char(from, to)
}

/// Takes white space off both ends of `s`.
pub fn trim<'a>(s: &'a str) -> (rest: &'a str)
    ensures
        rest@ == trimmed(s@),
{
    strip(s, Edge::Space)
}

/// Cuts `s` at every `separator`.
pub fn split(s: &str, separator: char) -> (parts: Vec<String>)
    ensures
        texts(parts@) == pieces(s@, separator),
        parts@.len() >= 1,
{
    let chars = characters(s);
    let mut parts: Vec<String> = Vec::new();
    let mut from: usize = 0;
    let mut i: usize = 0;
    assert(s@.take(0) == Seq::<char>::empty());
    assert(s@.subrange(0, 0) == Seq::<char>::empty());
    assert(texts(parts@).push(s@.subrange(0, 0)) == pieces(s@.take(0), separator));
    while i < chars.len()
        invariant
            from <= i <= chars.len(),
            chars@ == s@,
            texts(parts@).push(s@.subrange(from as int, i as int)) == pieces(
                s@.take(i as int),
                separator,
            ),
        decreases chars.len() - i,
    {
        let ghost seen = s@.take(i + 1);
        let ghost before = texts(parts@);
        let ghost current = s@.subrange(from as int, i as int);
        assert(seen.drop_last() == s@.take(i as int));
        assert(seen.last() == s@[i as int]);
        assert(before.push(current).drop_last() == before);
        if chars[i] == separator {
            parts.push(s.substring_char(from, i).to_owned());
            from = i + 1;
            assert(texts(parts@) == before.push(current));
            assert(s@.subrange(from as int, i + 1) == Seq::<char>::empty());
        } else {
            assert(s@.subrange(from as int, i + 1) == current.push(s@[i as int]));
        }
        i = i + 1;
    }
    assert(s@.take(i as int) == s@);
    let ghost before = texts(parts@);
    parts.push(s.substring_char(from, i).to_owned());
    assert(texts(parts@) == before.push(s@.subrange(from as int, i as int)));
    parts
}

/// Puts `parts` together with `separator` between neighbours.
pub fn join(parts: &Vec<String>, separator: &str) -> (whole: String)
    ensures
        whole@ == joined(texts(parts@), separator@),
{
    let mut whole = String::new();
    let mut i: usize = 0;
    let ghost all = texts(parts@);
    while i < parts.len()
        invariant
            i <= parts.len(),
            all == texts(parts@),
            whole@ == joined(all.take(i as int), separator@),
        decreases parts.len() - i,
    {
        assert(all.take(i + 1).drop_last() == all.take(i as int));
        assert(all.take(i + 1).last() == parts@[i as int]@);
        if i > 0 {
            whole.append(separator);
        }
        whole.append(parts[i].as_str());
        i = i + 1;
    }
    assert(all.take(i as int) == all);
    whole
}

/// What follows `prefix` in `s`, if `s` begins with it.
pub fn strip_prefix<'a>(s: &'a str, prefix: &str) -> (rest: Option<&'a str>)
    ensures
        match rest {
            Some(r) => after_prefix(s@, prefix@) == Some(r@),
            None => after_prefix(s@, prefix@) is None,
        },
{
    let whole: usize = s.unicode_len();
    let part: usize = prefix.unicode_len();
    if part > whole {
        return None;
    }
    if same_text(s.substring_char(0, part), prefix) {
        assert(s@.subrange(part as int, whole as int) == s@.skip(part as int));
        Some(s.substring_char(part, whole))
    } else {
        None
    }
}

/// Takes `prefix` off the front of `s` as often as it stands there.
pub fn strip_prefixes<'a>(s: &'a str, prefix: &str) -> (rest: &'a str)
    ensures
        rest@ == without_prefixes(s@, prefix@),
{
    let part: usize = prefix.unicode_len();
    let mut rest = s;
    if part == 0 {
        return rest;
    }
    loop
        invariant
            part == prefix@.len(),
            part > 0,
            without_prefixes(s@, prefix@) == without_prefixes(rest@, prefix@),
        decreases rest@.len(),
    {
        match strip_prefix(rest, prefix) {
            Some(shorter) => {
                rest = shorter;
            },
            None => {
                return rest;
            },
        }
    }
}

/// The position of the first `c` in `chars`, or its length if there is none.
fn position_of_first(chars: &Vec<char>, c: char) -> (at: usize)
    ensures
        at == before_first(chars@, c).len(),
        at <= chars@.len(),
        (at < chars@.len()) == chars@.contains(c),
        chars@.take(at as int) == before_first(chars@, c),
{
    let mut at: usize = 0;
    assert(chars@.skip(0) == chars@);
    assert(chars@.take(0) + before_first(chars@, c) == before_first(chars@, c));
    while at < chars.len() && chars[at] != c
        invariant
            at <= chars.len(),
            forall|k: int| 0 <= k < at ==> chars@[k] != c,
            chars@.take(at as int) + before_first(chars@.skip(at as int), c) == before_first(
                chars@,
                c,
            ),
        decreases chars.len() - at,
    {
        let ghost rest = chars@.skip(at as int);
        assert(rest.first() == chars@[at as int]);
        assert(rest.drop_first() == chars@.skip(at + 1));
        assert(chars@.take(at + 1) + before_first(chars@.skip(at + 1), c) == chars@.take(at as int)
            + before_first(rest, c));
        at = at + 1;
    }
    proof {
        let rest = chars@.skip(at as int);
        if at < chars@.len() {
            assert(rest.first() == chars@[at as int]);
            assert(chars@.contains(c));
        }
        assert(before_first(rest, c) == Seq::<char>::empty());
        assert(chars@.take(at as int) == before_first(chars@, c));
    }
    at
}

/// What stands before the first `c` in `s`; all of `s` if there is none.
pub fn up_to_first<'a>(s: &'a str, c: char) -> (front: &'a str)
    ensures
        front@ == before_first(s@, c),
{
    let chars = characters(s);
    let at: usize = position_of_first(&chars, c);
    s.substring_char(0, at)
}

/// What stands after the first `c` in `s`, if there is one.
pub fn past_first<'a>(s: &'a str, c: char) -> (rest: Option<&'a str>)
    ensures
        match rest {
            Some(r) => after_first(s@, c) == Some(r@),
            None => after_first(s@, c) is None,
        },
{
    let chars = characters(s);
    let at: usize = position_of_first(&chars, c);
    if at < chars.len() {
        assert(s@.subrange(at + 1, s@.len() as int) == s@.skip(at + 1));
        Some(s.substring_char(at + 1, chars.len()))
    } else {
        None
    }
}

/// A text in which `c` does not follow position `at` has after its last `c` what
/// the part up to there has, and then the rest.
pub proof fn lemma_after_last(s: Seq<char>, c: char, at: int)
    requires
        0 <= at <= s.len(),
        forall|k: int| at <= k < s.len() ==> s[k] != c,
    ensures
        after_last(s, c) == (match after_last(s.take(at), c) {
            Some(tail) => Some(tail + s.skip(at)),
            None => None,
        }),
    decreases s.len() - at,
{
    if at == s.len() {
        assert(s.take(at) == s);
        match after_last(s, c) {
            Some(tail) => {
                assert(tail + s.skip(at) == tail);
            },
            None => {},
        }
    } else {
        let shorter = s.drop_last();
        lemma_after_last(shorter, c, at);
        assert(shorter.take(at) == s.take(at));
        match after_last(s.take(at), c) {
            Some(tail) => {
                assert((tail + shorter.skip(at)).push(s.last()) == tail + s.skip(at));
            },
            None => {},
        }
    }
}

/// What stands after the last `c` in `s`, if there is one.
pub fn past_last<'a>(s: &'a str, c: char) -> (rest: Option<&'a str>)
    ensures
        match rest {
            Some(r) => after_last(s@, c) == Some(r@),
            None => after_last(s@, c) is None,
        },
{
    let chars = characters(s);
    let mut at: usize = chars.len();
    while at > 0 && chars[at - 1] != c
        invariant
            at <= chars.len(),
            chars@ == s@,
            forall|k: int| at <= k < s@.len() ==> s@[k] != c,
        decreases at,
    {
        at = at - 1;
    }
    proof {
        lemma_after_last(s@, c, at as int);
    }
    if at == 0 {
        None
    } else {
        assert(s@.take(at as int).last() == c);
        assert(Seq::<char>::empty() + s@.skip(at as int) == s@.subrange(at as int, s@.len() as int));
        Some(s.substring_char(at, chars.len()))
    }
}

/// The bytes that `c` takes up in UTF-8.
fn width_of(c: char) -> (bytes: usize)
    ensures
        bytes == width(c),
{
    let u: u32 = c as u32;
    if u < 0x80 {
        1
    } else if u < 0x800 {
        2
    } else if u < 0x1_0000 {
        3
    } else {
        4
    }
}

/// The front of `s` that takes up exactly `bytes` bytes in UTF-8, if there is one.
pub fn front_of<'a>(s: &'a str, bytes: usize) -> (part: Option<&'a str>)
    ensures
        match part {
            Some(p) => front(s@, bytes as nat) == Some(p@),
            None => front(s@, bytes as nat) is None,
        },
{
    let chars = characters(s);
    let mut missing: usize = bytes;
    let mut i: usize = 0;
    assert(s@.skip(0) == s@);
    proof {
        if let Some(rest) = front(s@, bytes as nat) {
            assert(s@.take(0) + rest == rest);
        }
    }
    while missing > 0
        invariant
            i <= chars.len(),
            chars@ == s@,
            front(s@, bytes as nat) == (match front(s@.skip(i as int), missing as nat) {
                Some(rest) => Some(s@.take(i as int) + rest),
                None => None,
            }),
        decreases missing,
    {
        if i == chars.len() {
            return None;
        }
        let w: usize = width_of(chars[i]);
        let ghost rest = s@.skip(i as int);
        assert(rest.first() == chars@[i as int]);
        assert(rest.drop_first() == s@.skip(i + 1));
        if w > missing {
            return None;
        }
        proof {
            if let Some(more) = front(rest.drop_first(), (missing - w) as nat) {
                assert(s@.take(i as int) + (seq![rest.first()] + more) == s@.take(i + 1) + more);
            }
        }
        missing = missing - w;
        i = i + 1;
    }
    assert(s@.take(i as int) + Seq::<char>::empty() == s@.subrange(0, i as int));
    Some(s.substring_char(0, i))
}

/// Whether `part` stands somewhere in `s`.
pub fn has_text(s: &str, part: &str) -> (found: bool)
    ensures
        found == contains_text(s@, part@),
{
    let whole: usize = s.unicode_len();
    let wanted: usize = part.unicode_len();
    if wanted > whole {
        return false;
    }
    let mut at: usize = 0;
    while at <= whole - wanted
        invariant
            whole == s@.len(),
            wanted == part@.len(),
            wanted <= whole,
            at <= whole - wanted + 1,
            forall|k: int| 0 <= k < at ==> !stands_at(s@, part@, k),
        decreases whole - wanted + 1 - at,
    {
        if same_text(s.substring_char(at, at + wanted), part) {
            assert(stands_at(s@, part@, at as int));
            return true;
        }
        if at == whole - wanted {
            assert forall|k: int| !stands_at(s@, part@, k) by {
                if k == at {
                }
            }
            return false;
        }
        at = at + 1;
    }
    false
}

/// A text that goes on with a separator and a piece without it has one more piece.
pub proof fn lemma_one_more_piece(s: Seq<char>, separator: char, piece: Seq<char>)
    requires
        !piece.contains(separator),
    ensures
        pieces(s + seq![separator] + piece, separator) == pieces(s, separator).push(piece),
    decreases piece.len(),
{
    let whole = s + seq![separator] + piece;
    if piece.len() == 0 {
        assert(whole.drop_last() == s);
        assert(piece == Seq::<char>::empty());
    } else {
        let front = piece.drop_last();
        assert(whole.drop_last() == s + seq![separator] + front);
        assert(piece.contains(piece.last()));
        assert forall|i: int| 0 <= i < front.len() implies front[i] != separator by {
            assert(front[i] == piece[i]);
            assert(piece.contains(piece[i]));
        }
        lemma_one_more_piece(s, separator, front);
        let before = pieces(s, separator).push(front);
        assert(before.drop_last() == pieces(s, separator));
        assert(front.push(piece.last()) == piece);
    }
}

/// A text without the separator is its only piece.
pub proof fn lemma_single_piece(s: Seq<char>, separator: char)
    requires
        !s.contains(separator),
    ensures
        pieces(s, separator) == seq![s],
    decreases s.len(),
{
    if s.len() > 0 {
        let front = s.drop_last();
        assert(s.contains(s.last()));
        assert forall|i: int| 0 <= i < front.len() implies front[i] != separator by {
            assert(front[i] == s[i]);
            assert(s.contains(s[i]));
        }
        lemma_single_piece(front, separator);
        assert(seq![front].drop_last() == Seq::<Seq<char>>::empty());
        assert(front.push(s.last()) == s);
        assert(pieces(s, separator) == seq![s]);
    } else {
        assert(s == Seq::<char>::empty());
    }
}

/// What stands before the first separator.
pub proof fn lemma_before_first(front: Seq<char>, separator: char, rest: Seq<char>)
    requires
        !front.contains(separator),
    ensures
        before_first(front + seq![separator] + rest, separator) == front,
        after_first(front + seq![separator] + rest, separator) == Some(rest),
    decreases front.len(),
{
    let whole = front + seq![separator] + rest;
    assert(whole[front.len() as int] == separator);
    if front.len() > 0 {
        let less = front.drop_first();
        assert(front.contains(front.first()));
        assert forall|i: int| 0 <= i < less.len() implies less[i] != separator by {
            assert(less[i] == front[i + 1]);
            assert(front.contains(front[i + 1]));
        }
        lemma_before_first(less, separator, rest);
        assert(whole.drop_first() == less + seq![separator] + rest);
        assert(seq![front.first()] + less == front);
    } else {
        assert(front == Seq::<char>::empty());
    }
    assert(whole.skip(front.len() as int + 1) == rest);
}

/// Whether `part` stands in `s` as it is.
pub open spec fn is_part_of(part: Seq<char>, s: Seq<char>) -> bool {
    exists|from: int, to: int| 0 <= from <= to <= s.len() && part == #[trigger] s.subrange(from, to)
}

/// What is left when the ends are taken off stands in the text, and has no such ends itself.
pub proof fn lemma_stripped(s: Seq<char>, edge: Edge)
    ensures
        is_part_of(stripped(s, edge), s),
        stripped(stripped(s, edge), edge) == stripped(s, edge),
    decreases s.len(),
{
    if s.len() == 0 {
        assert(s == s.subrange(0, 0));
    } else if is_edge(s.first(), edge) {
        let rest = s.drop_first();
        lemma_stripped(rest, edge);
        let (from, to) = choose|from: int, to: int|
            0 <= from <= to <= rest.len() && stripped(rest, edge) == #[trigger] rest.subrange(
                from,
                to,
            );
        assert(rest.subrange(from, to) == s.subrange(from + 1, to + 1));
    } else if is_edge(s.last(), edge) {
        let rest = s.drop_last();
        lemma_stripped(rest, edge);
        let (from, to) = choose|from: int, to: int|
            0 <= from <= to <= rest.len() && stripped(rest, edge) == #[trigger] rest.subrange(
                from,
                to,
            );
        assert(rest.subrange(from, to) == s.subrange(from, to));
    } else {
        assert(s == s.subrange(0, s.len() as int));
    }
}

/// A character that is not taken off stays.
pub proof fn lemma_stripped_keeps(s: Seq<char>, edge: Edge, at: int)
    requires
        0 <= at < s.len(),
        !is_edge(s[at], edge),
    ensures
        stripped(s, edge).contains(s[at]),
    decreases s.len(),
{
    if is_edge(s.first(), edge) {
        assert(s.drop_first()[at - 1] == s[at]);
        lemma_stripped_keeps(s.drop_first(), edge, at - 1);
    } else if is_edge(s.last(), edge) {
        assert(s.drop_last()[at] == s[at]);
        lemma_stripped_keeps(s.drop_last(), edge, at);
    } else {
        assert(s.contains(s[at]));
    }
}

/// The last character that is not taken off comes last.
pub proof fn lemma_stripped_last(s: Seq<char>, edge: Edge, at: int)
    requires
        0 <= at < s.len(),
        !is_edge(s[at], edge),
        forall|k: int| at < k < s.len() ==> is_edge(#[trigger] s[k], edge),
    ensures
        stripped(s, edge).len() > 0,
        stripped(s, edge).last() == s[at],
    decreases s.len(),
{
    if is_edge(s.first(), edge) {
        let rest = s.drop_first();
        assert forall|k: int| at - 1 < k < rest.len() implies is_edge(#[trigger] rest[k], edge) by {
            assert(rest[k] == s[k + 1]);
        }
        assert(rest[at - 1] == s[at]);
        lemma_stripped_last(rest, edge, at - 1);
    } else if is_edge(s.last(), edge) {
        let rest = s.drop_last();
        assert forall|k: int| at < k < rest.len() implies is_edge(#[trigger] rest[k], edge) by {
            assert(rest[k] == s[k]);
        }
        assert(rest[at] == s[at]);
        lemma_stripped_last(rest, edge, at);
    } else {
        assert(s.last() == s[s.len() - 1]);
    }
}

/// What stands in a text that stands in another stands in that other.
pub proof fn lemma_part_of_part(part: Seq<char>, middle: Seq<char>, s: Seq<char>)
    requires
        is_part_of(part, middle),
        is_part_of(middle, s),
    ensures
        is_part_of(part, s),
{
    let (a, b) = choose|a: int, b: int|
        0 <= a <= b <= middle.len() && part == #[trigger] middle.subrange(a, b);
    let (c, d) = choose|c: int, d: int|
        0 <= c <= d <= s.len() && middle == #[trigger] s.subrange(c, d);
    assert(part == s.subrange(c + a, c + b));
}

/// What follows the last `c` holds no `c`, and the text is made of what comes before, `c` and
/// what follows. Without a `c` nothing follows it.
pub proof fn lemma_after_last_parts(s: Seq<char>, c: char)
    ensures
        match after_last(s, c) {
            Some(tail) => {
                &&& !tail.contains(c)
                &&& tail.len() < s.len()
                &&& s[s.len() - tail.len() - 1] == c
                &&& tail == s.skip(s.len() - tail.len())
            },
            None => !s.contains(c),
        },
    decreases s.len(),
{
    if s.len() > 0 && s.last() != c {
        let front = s.drop_last();
        lemma_after_last_parts(front, c);
        match after_last(front, c) {
            Some(tail) => {
                let longer = tail.push(s.last());
                assert forall|i: int| 0 <= i < longer.len() implies longer[i] != c by {
                    if i < tail.len() {
                        assert(longer[i] == tail[i]);
                        assert(tail.contains(tail[i]));
                    }
                }
                assert(longer == s.skip(s.len() - longer.len()));
            },
            None => {
                assert forall|i: int| 0 <= i < s.len() implies s[i] != c by {
                    if i < front.len() {
                        assert(front[i] == s[i]);
                        assert(front.contains(front[i]));
                    }
                }
            },
        }
    } else if s.len() > 0 {
        assert(s.skip(s.len() as int) == Seq::<char>::empty());
    }
}

// ---------------------------------------------------------------------------
// Laws
// ---------------------------------------------------------------------------
/// A text is cut into pieces that hold no separator, and putting these together with the
/// separator between them gives the text back.
pub proof fn law_pieces_make_up_the_text(s: Seq<char>, separator: char)
    ensures
        pieces(s, separator).len() >= 1,
        joined(pieces(s, separator), seq![separator]) == s,
        forall|i: int|
            0 <= i < pieces(s, separator).len() ==> !(#[trigger] pieces(s, separator)[i]).contains(
                separator,
            ),
    decreases s.len(),
{
    let all = pieces(s, separator);
    if s.len() == 0 {
        assert(joined(all, seq![separator]) == s);
    } else {
        let shorter = s.drop_last();
        let before = pieces(shorter, separator);
        law_pieces_make_up_the_text(shorter, separator);
        assert(s == shorter.push(s.last()));
        if s.last() == separator {
            assert(all.drop_last() == before);
            assert(joined(all, seq![separator]) == shorter + seq![separator]
                + Seq::<char>::empty());
            assert forall|i: int| 0 <= i < all.len() implies !(#[trigger] all[i]).contains(
                separator,
            ) by {
                if i < before.len() {
                    assert(all[i] == before[i]);
                }
            }
        } else {
            let last = before.last().push(s.last());
            assert(all.drop_last() == before.drop_last());
            assert(all.last() == last);
            if before.len() == 1 {
                assert(before.last() == before[0]);
            } else {
                let front = joined(before.drop_last(), seq![separator]) + seq![separator];
                assert(front + last == (front + before.last()).push(s.last()));
            }
            assert forall|i: int| 0 <= i < all.len() implies !(#[trigger] all[i]).contains(
                separator,
            ) by {
                if i < before.len() - 1 {
                    assert(all[i] == before[i]);
                } else {
                    assert(!before[before.len() - 1].contains(separator));
                    assert forall|k: int| 0 <= k < last.len() implies last[k] != separator by {
                        if k < before.last().len() {
                            assert(before.last().contains(before.last()[k]));
                        }
                    }
                }
            }
        }
    }
}

/// Putting texts together keeps each of them, in order, with the separator between neighbours
/// and nowhere else.
pub proof fn law_texts_are_put_together(
    front: Seq<Seq<char>>,
    last: Seq<char>,
    separator: Seq<char>,
)
    ensures
        joined(Seq::empty(), separator) == Seq::<char>::empty(),
        joined(seq![last], separator) == last,
        front.len() > 0 ==> joined(front.push(last), separator) == joined(front, separator)
            + separator + last,
{
    assert(front.push(last).drop_last() == front);
}

/// What comes before the first of a character, that character, and what follows it make up the
/// text, and the character does not stand in what comes before. Without one the whole text
/// comes before.
pub proof fn law_text_is_cut_at_the_first(
    s: &str,
    c: char,
    before: &str,
    after: Option<&str>,
)
    requires
        call_ensures(up_to_first, (s, c), before),
        call_ensures(past_first, (s, c), after),
    ensures
        !before@.contains(c),
        s@.contains(c) <==> after is Some,
        after is Some ==> s@ == before@ + seq![c] + after->0@,
        after is None ==> before@ == s@,
{
    lemma_cut_at_first(s@, c);
    if after is Some {
        let at = before@.len() as int;
        assert(s@ == before@ + seq![c] + s@.skip(at + 1));
    }
}

/// What stands before the first of a character.
proof fn lemma_cut_at_first(s: Seq<char>, c: char)
    ensures
        !before_first(s, c).contains(c),
        before_first(s, c).len() <= s.len(),
        before_first(s, c) == s.take(before_first(s, c).len() as int),
        before_first(s, c).len() < s.len() ==> s[before_first(s, c).len() as int] == c,
        before_first(s, c).len() < s.len() <==> s.contains(c),
    decreases s.len(),
{
    if s.len() > 0 && s.first() != c {
        let rest = s.drop_first();
        lemma_cut_at_first(rest, c);
        let before = before_first(rest, c);
        let all = seq![s.first()] + before;
        assert forall|i: int| 0 <= i < all.len() implies all[i] != c by {
            if i > 0 {
                assert(all[i] == before[i - 1]);
                assert(before.contains(before[i - 1]));
            }
        }
        assert(all == s.take(all.len() as int));
        if rest.contains(c) {
            let i = choose|i: int| 0 <= i < rest.len() && rest[i] == c;
            assert(s[i + 1] == c);
        }
        if s.contains(c) {
            let i = choose|i: int| 0 <= i < s.len() && s[i] == c;
            assert(rest[i - 1] == c);
        }
    } else if s.len() > 0 {
        assert(s[0] == c);
        assert(before_first(s, c) == s.take(0));
    } else {
        assert(before_first(s, c) == s.take(0));
    }
}

/// What follows the last of a character holds no other, and ends the text behind it.
pub proof fn law_text_is_cut_at_the_last(s: &str, c: char, after: Option<&str>)
    requires
        call_ensures(past_last, (s, c), after),
    ensures
        s@.contains(c) <==> after is Some,
        after is Some ==> !after->0@.contains(c) && (exists|before: Seq<char>|
            s@ == #[trigger] (before + seq![c]) + after->0@),
{
    lemma_after_last_parts(s@, c);
    if after is Some {
        let tail = after->0@;
        let at = s@.len() - tail.len() - 1;
        assert(s@[at] == c);
        assert(s@ == (s@.take(at) + seq![c]) + tail);
    }
}

/// Taking white space or slashes off the ends takes off nothing else, and leaves none of them
/// at the ends.
pub proof fn law_only_the_ends_are_taken_off(s: &str, edge: Edge, rest: &str)
    requires
        call_ensures(strip, (s, edge), rest),
    ensures
        exists|front: Seq<char>, back: Seq<char>|
            {
                &&& s@ == #[trigger] (front + rest@ + back)
                &&& forall|i: int| 0 <= i < front.len() ==> is_edge(#[trigger] front[i], edge)
                &&& forall|i: int| 0 <= i < back.len() ==> is_edge(#[trigger] back[i], edge)
            },
        rest@.len() > 0 ==> !is_edge(rest@.first(), edge) && !is_edge(rest@.last(), edge),
{
    lemma_ends(s@, edge);
}

/// The ends that are taken off.
proof fn lemma_ends(s: Seq<char>, edge: Edge)
    ensures
        exists|front: Seq<char>, back: Seq<char>|
            {
                &&& s == #[trigger] (front + stripped(s, edge) + back)
                &&& forall|i: int| 0 <= i < front.len() ==> is_edge(#[trigger] front[i], edge)
                &&& forall|i: int| 0 <= i < back.len() ==> is_edge(#[trigger] back[i], edge)
            },
        stripped(s, edge).len() > 0 ==> !is_edge(stripped(s, edge).first(), edge) && !is_edge(
            stripped(s, edge).last(),
            edge,
        ),
    decreases s.len(),
{
    let none = Seq::<char>::empty();
    let rest = stripped(s, edge);
    if s.len() == 0 {
        assert(s == none + rest + none);
    } else if is_edge(s.first(), edge) {
        let shorter = s.drop_first();
        lemma_ends(shorter, edge);
        let (front, back) = choose|front: Seq<char>, back: Seq<char>|
            {
                &&& shorter == #[trigger] (front + stripped(shorter, edge) + back)
                &&& forall|i: int| 0 <= i < front.len() ==> is_edge(#[trigger] front[i], edge)
                &&& forall|i: int| 0 <= i < back.len() ==> is_edge(#[trigger] back[i], edge)
            };
        let longer = seq![s.first()] + front;
        assert forall|i: int| 0 <= i < longer.len() implies is_edge(#[trigger] longer[i], edge) by {
            if i > 0 {
                assert(longer[i] == front[i - 1]);
            }
        }
        assert(s == seq![s.first()] + shorter);
        assert(s == longer + rest + back);
    } else if is_edge(s.last(), edge) {
        let shorter = s.drop_last();
        lemma_ends(shorter, edge);
        let (front, back) = choose|front: Seq<char>, back: Seq<char>|
            {
                &&& shorter == #[trigger] (front + stripped(shorter, edge) + back)
                &&& forall|i: int| 0 <= i < front.len() ==> is_edge(#[trigger] front[i], edge)
                &&& forall|i: int| 0 <= i < back.len() ==> is_edge(#[trigger] back[i], edge)
            };
        let longer = back.push(s.last());
        assert forall|i: int| 0 <= i < longer.len() implies is_edge(#[trigger] longer[i], edge) by {
            if i < back.len() {
                assert(longer[i] == back[i]);
            }
        }
        assert(s == shorter.push(s.last()));
        assert(s == front + rest + longer);
    } else {
        assert(s == none + rest + none);
    }
}

/// White space is what Unicode counts as such: of the ASCII characters blank, tab, line feed,
/// vertical tab, form feed and carriage return, and seventeen characters beyond.
pub proof fn law_white_space(c: char, s: &str, rest: &str)
    requires
        call_ensures(trim, (s,), rest),
    ensures
        rest@ == stripped(s@, Edge::Space),
        is_edge(c, Edge::Slash) <==> c == '/',
        is_edge(c, Edge::Space) <==> ({
            let u = c as int;
            ||| u == 32
            ||| 9 <= u <= 13
            ||| u == 133
            ||| u == 160
            ||| u == 5760
            ||| 8192 <= u <= 8202
            ||| u == 8232
            ||| u == 8233
            ||| u == 8239
            ||| u == 8287
            ||| u == 12288
        }),
{
}

/// A prefix is found if, and only if, the text is the prefix and what follows.
pub proof fn law_prefix_is_taken_off(s: &str, prefix: &str, rest: Option<&str>, other: Seq<char>)
    requires
        call_ensures(strip_prefix, (s, prefix), rest),
    ensures
        rest is Some ==> s@ == prefix@ + rest->0@,
        s@ == prefix@ + other ==> rest is Some && rest->0@ == other,
{
    if rest is Some {
        assert(s@ == prefix@ + s@.skip(prefix@.len() as int));
    }
    if s@ == prefix@ + other {
        assert(s@.take(prefix@.len() as int) == prefix@);
        assert(s@.skip(prefix@.len() as int) == other);
    }
}

/// A prefix that stands there several times is taken off each time: one more of it changes
/// nothing, and none is left.
pub proof fn law_prefixes_are_all_taken_off(s: Seq<char>, prefix: Seq<char>)
    requires
        prefix.len() > 0,
    ensures
        without_prefixes(prefix + s, prefix) == without_prefixes(s, prefix),
        !prefix.is_prefix_of(without_prefixes(s, prefix)),
        !prefix.is_prefix_of(s) ==> without_prefixes(s, prefix) == s,
    decreases s.len(),
{
    assert((prefix + s).take(prefix.len() as int) == prefix);
    assert(prefix.is_prefix_of(prefix + s));
    assert((prefix + s).skip(prefix.len() as int) == s);
    if prefix.is_prefix_of(s) {
        law_prefixes_are_all_taken_off(s.skip(prefix.len() as int), prefix);
    }
}

/// A text has a part if, and only if, it is made of something, the part, and something.
pub proof fn law_part_is_found(s: &str, part: &str, found: bool)
    requires
        call_ensures(has_text, (s, part), found),
    ensures
        found <==> exists|before: Seq<char>, after: Seq<char>|
            s@ == #[trigger] (before + part@ + after),
{
    if found {
        let at = choose|at: int| stands_at(s@, part@, at);
        let end = at + part@.len();
        assert(s@ == s@.take(at) + part@ + s@.skip(end));
    }
    if exists|before: Seq<char>, after: Seq<char>| s@ == #[trigger] (before + part@ + after) {
        let (before, after) = choose|before: Seq<char>, after: Seq<char>|
            s@ == #[trigger] (before + part@ + after);
        let at = before.len() as int;
        assert(s@.subrange(at, at + part@.len()) == part@);
        assert(stands_at(s@, part@, at));
    }
}

/// The front of an ASCII text of so many bytes is that of so many characters, and there is one
/// if the text is long enough.
pub proof fn law_front_of_ascii(s: &str, bytes: usize, part: Option<&str>)
    requires
        call_ensures(front_of, (s, bytes), part),
        forall|i: int| 0 <= i < s@.len() && i < bytes ==> (#[trigger] s@[i]) as u32 <= 0x7f,
    ensures
        part is Some <==> s@.len() >= bytes,
        part is Some ==> part->0@ == s@.take(bytes as int),
{
    lemma_front_of_ascii(s@, bytes as nat);
}

/// The front of an ASCII text.
pub proof fn lemma_front_of_ascii(s: Seq<char>, bytes: nat)
    requires
        forall|i: int| 0 <= i < s.len() && i < bytes ==> (#[trigger] s[i]) as u32 <= 0x7f,
    ensures
        front(s, bytes) == (if s.len() >= bytes {
            Some(s.take(bytes as int))
        } else {
            None
        }),
    decreases s.len(),
{
    if bytes == 0 {
        assert(s.take(0) == Seq::<char>::empty());
    } else if s.len() > 0 {
        let rest = s.drop_first();
        let less = (bytes - 1) as nat;
        assert forall|i: int| 0 <= i < rest.len() && i < less implies (#[trigger] rest[i]) as u32
            <= 0x7f by {
            assert(rest[i] == s[i + 1]);
        }
        assert(s[0] as u32 <= 0x7f);
        lemma_front_of_ascii(rest, less);
        if s.len() >= bytes {
            assert(seq![s.first()] + rest.take(less as int) == s.take(bytes as int));
        }
    }
}

/// Whatever the text, its front stands at its front and takes up just so many bytes; a
/// character takes up one to four, by its place in Unicode.
pub proof fn law_front_takes_up_its_bytes(s: Seq<char>, bytes: nat)
    ensures
        front(s, bytes) is Some ==> front(s, bytes)->0.is_prefix_of(s) && total_width(
            front(s, bytes)->0,
        ) == bytes,
    decreases s.len(),
{
    if bytes > 0 && s.len() > 0 && width(s.first()) <= bytes {
        let rest = s.drop_first();
        let less = (bytes - width(s.first())) as nat;
        law_front_takes_up_its_bytes(rest, less);
        if front(rest, less) is Some {
            let more = front(rest, less)->0;
            let all = seq![s.first()] + more;
            assert(all.drop_first() == more);
            assert(all.first() == s.first());
            assert(more == rest.subrange(0, more.len() as int));
            assert(all == s.subrange(0, all.len() as int));
            assert(total_width(all) == width(s.first()) + total_width(more));
        }
    } else if bytes == 0 {
        assert(Seq::<char>::empty() == s.subrange(0, 0));
    }
}

/// The bytes that a text takes up.
pub open spec fn total_width(s: Seq<char>) -> nat
    decreases s.len(),
{
    if s.len() == 0 {
        0
    } else {
        let u = s.first() as u32;
        let bytes: nat = if u <= 127 {
            1
        } else if u <= 2047 {
            2
        } else if u <= 65535 {
            3
        } else {
            4
        };
        bytes + total_width(s.drop_first())
    }
}

/// Texts are the same if, and only if, they have the same characters at the same places.
pub proof fn law_same_texts(a: &str, b: &str, same: bool)
    requires
        call_ensures(same_text, (a, b), same),
    ensures
        same <==> a@.len() == b@.len() && forall|i: int| 0 <= i < a@.len() ==> a@[i] == b@[i],
{
    if a@.len() == b@.len() && forall|i: int| 0 <= i < a@.len() ==> a@[i] == b@[i] {
        assert(a@ =~= b@);
    }
}

/// Cutting a text and putting its pieces together gives the text back.
pub proof fn law_cut_text_goes_together_again(
    s: &str,
    separator: char,
    between: &str,
    parts: Vec<String>,
    whole: String,
)
    requires
        call_ensures(split, (s, separator), parts),
        between@ == seq![separator],
        call_ensures(join, (&parts, between), whole),
    ensures
        whole@ == s@,
        forall|i: int| 0 <= i < parts@.len() ==> !(#[trigger] parts@[i])@.contains(separator),
{
    law_pieces_make_up_the_text(s@, separator);
    let all = texts(parts@);
    assert forall|i: int| 0 <= i < parts@.len() implies !(#[trigger] parts@[i])@.contains(
        separator,
    ) by {
        assert(all[i] == parts@[i]@);
    }
}

/// What is left when a prefix is taken off stands at the end of the text.
pub proof fn lemma_prefixes_leave_the_end(s: Seq<char>, prefix: Seq<char>)
    ensures
        without_prefixes(s, prefix).len() <= s.len(),
        without_prefixes(s, prefix) == s.skip(s.len() - without_prefixes(s, prefix).len()),
    decreases s.len(),
{
    if prefix.len() > 0 && prefix.is_prefix_of(s) {
        let rest = s.skip(prefix.len() as int);
        lemma_prefixes_leave_the_end(rest, prefix);
        let left = without_prefixes(rest, prefix);
        assert(rest.skip(rest.len() - left.len()) == s.skip(s.len() - left.len()));
    } else {
        assert(s.skip(0) == s);
    }
}

} // verus!
