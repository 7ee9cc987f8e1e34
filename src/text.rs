//! Character-level building blocks of the configuration text: decimal
//! numbers, splitting on a separator, `key = value` attributes and
//! newline-terminated lines.
use vstd::prelude::*;

verus! {

pub open spec fn is_digit(c: char) -> bool {
    48 <= (c as u32) <= 57
}

pub open spec fn digit_value(c: char) -> nat {
    ((c as u32) - 48) as nat
}

pub open spec fn digit_char(d: nat) -> char {
    ((d + 48) as u8) as char
}

pub open spec fn all_digits(s: Seq<char>) -> bool {
    forall|i: int| 0 <= i < s.len() ==> is_digit(#[trigger] s[i])
}

/// Shortest decimal text of `n` (no leading zeros).
pub open spec fn dec_text(n: nat) -> Seq<char>
    decreases n,
{
    if n < 10 {
        seq![digit_char(n)]
    } else {
        dec_text(n / 10).push(digit_char(n % 10))
    }
}

/// Value of a string of decimal digits (leading zeros allowed).
pub open spec fn parse_dec(s: Seq<char>) -> nat
    decreases s.len(),
{
    if s.len() == 0 {
        0
    } else {
        parse_dec(s.drop_last()) * 10 + digit_value(s.last())
    }
}

/// A non-empty run of decimal digits whose value is at most `max`.
pub open spec fn bounded_number(s: Seq<char>, max: nat) -> Option<nat> {
    if s.len() > 0 && all_digits(s) && parse_dec(s) <= max {
        Some(parse_dec(s))
    } else {
        None
    }
}

/// The pieces of `s` between occurrences of `sep`; always at least one piece.
pub open spec fn split_on(s: Seq<char>, sep: char) -> Seq<Seq<char>>
    decreases s.len(),
{
    if s.len() == 0 {
        seq![Seq::empty()]
    } else {
        let rest = split_on(s.drop_first(), sep);
        if s[0] == sep {
            seq![Seq::empty()] + rest
        } else {
            rest.update(0, seq![s[0]] + rest[0])
        }
    }
}

pub open spec fn lacks(s: Seq<char>, c: char) -> bool {
    forall|i: int| 0 <= i < s.len() ==> #[trigger] s[i] != c
}

/// Each line followed by a newline.
pub open spec fn lines_text(lines: Seq<Seq<char>>) -> Seq<char>
    decreases lines.len(),
{
    if lines.len() == 0 {
        Seq::empty()
    } else {
        lines[0] + seq!['\n'] + lines_text(lines.drop_first())
    }
}

/// Whether the attribute separator `" = "` starts at position `i`.
pub open spec fn sep_at(s: Seq<char>, i: int) -> bool {
    &&& 0 <= i
    &&& i + 3 <= s.len()
    &&& s[i] == ' '
    &&& s[i + 1] == '='
    &&& s[i + 2] == ' '
}

/// First position at or after `i` where `" = "` starts.
pub open spec fn find_sep_from(s: Seq<char>, i: nat) -> Option<nat>
    decreases s.len() - i,
{
    if i + 3 > s.len() {
        None
    } else if sep_at(s, i as int) {
        Some(i)
    } else {
        find_sep_from(s, i + 1)
    }
}

/// A `key = value` line: the key before the first `" = "`, the value after it.
pub open spec fn split_attr(line: Seq<char>) -> Option<(Seq<char>, Seq<char>)> {
    match find_sep_from(line, 0) {
        Some(i) => Some((line.take(i as int), line.skip(i as int + 3))),
        None => None,
    }
}

/// The line `key = value`.
pub open spec fn attr_line(key: Seq<char>, value: Seq<char>) -> Seq<char> {
    key + " = "@ + value
}

pub proof fn lemma_dec_text(n: nat)
    ensures
        dec_text(n).len() >= 1,
        all_digits(dec_text(n)),
        parse_dec(dec_text(n)) == n,
        lacks(dec_text(n), '\n'),
    decreases n,
{
    let t = dec_text(n);
    if n < 10 {
        assert(t.drop_last() =~= Seq::<char>::empty());
        assert(parse_dec(Seq::<char>::empty()) == 0);
        assert(digit_value(digit_char(n)) == n);
    } else {
        lemma_dec_text(n / 10);
        let p = dec_text(n / 10);
        assert(t.drop_last() =~= p);
        assert(forall|i: int| 0 <= i < p.len() ==> t[i] == p[i]);
        assert(digit_value(digit_char(n % 10)) == n % 10);
        assert((n / 10) * 10 + n % 10 == n);
    }
}

/// Decimal text of a number below 1000 has at most three digits, below 100 at most two.
pub proof fn lemma_dec_text_width(n: nat)
    ensures
        n < 100 ==> dec_text(n).len() <= 2,
        n < 1000 ==> dec_text(n).len() <= 3,
    decreases n,
{
    if n >= 10 {
        lemma_dec_text_width(n / 10);
    }
}

/// Decimal text holds digits only, so no other character.
pub proof fn lemma_dec_text_lacks(n: nat, c: char)
    requires
        !is_digit(c),
    ensures
        lacks(dec_text(n), c),
{
    lemma_dec_text(n);
}

/// A prefix of a digit string is worth no more than the whole.
pub proof fn lemma_parse_dec_prefix(s: Seq<char>, j: int)
    requires
        0 <= j <= s.len(),
    ensures
        parse_dec(s.take(j)) <= parse_dec(s),
    decreases s.len(),
{
    if j == s.len() {
        assert(s.take(j) =~= s);
    } else {
        lemma_parse_dec_prefix(s.drop_last(), j);
        assert(s.drop_last().take(j) =~= s.take(j));
    }
}

pub proof fn lemma_split_len(s: Seq<char>, sep: char)
    ensures
        split_on(s, sep).len() >= 1,
    decreases s.len(),
{
    if s.len() > 0 {
        lemma_split_len(s.drop_first(), sep);
    }
}

/// Splitting at the first separator, at position `e` (or `e == s.len()` when there is none).
pub proof fn lemma_split_first(s: Seq<char>, sep: char, e: int)
    requires
        0 <= e <= s.len(),
        forall|i: int| 0 <= i < e ==> s[i] != sep,
        e < s.len() ==> s[e] == sep,
    ensures
        e == s.len() ==> split_on(s, sep) == seq![s],
        e < s.len() ==> split_on(s, sep) == seq![s.take(e)] + split_on(s.skip(e + 1), sep),
    decreases e,
{
    if e == 0 {
        if s.len() == 0 {
            assert(s =~= Seq::<char>::empty());
            assert(split_on(s, sep) =~= seq![s]);
        } else {
            assert(s.skip(1) =~= s.drop_first());
            assert(s.take(0) =~= Seq::<char>::empty());
        }
    } else {
        let t = s.drop_first();
        lemma_split_first(t, sep, e - 1);
        lemma_split_len(t, sep);
        let rest = split_on(t, sep);
        if e == s.len() {
            assert(seq![s[0]] + t =~= s);
            assert(rest.update(0, seq![s[0]] + rest[0]) =~= seq![s]);
        } else {
            assert(seq![s[0]] + t.take(e - 1) =~= s.take(e));
            assert(t.skip(e) =~= s.skip(e + 1));
            assert(rest.update(0, seq![s[0]] + rest[0]) =~= seq![s.take(e)] + split_on(
                s.skip(e + 1),
                sep,
            ));
        }
    }
}

pub proof fn lemma_lacks_concat(a: Seq<char>, b: Seq<char>, c: char)
    requires
        lacks(a, c),
        lacks(b, c),
    ensures
        lacks(a + b, c),
{
    assert forall|i: int| 0 <= i < (a + b).len() implies #[trigger] (a + b)[i] != c by {
        if i < a.len() {
            assert((a + b)[i] == a[i]);
        } else {
            assert((a + b)[i] == b[i - a.len()]);
        }
    }
}

/// No piece of a split holds the separator.
pub proof fn lemma_split_pieces_lack(s: Seq<char>, sep: char)
    ensures
        forall|i: int|
            0 <= i < split_on(s, sep).len() ==> lacks(#[trigger] split_on(s, sep)[i], sep),
    decreases s.len(),
{
    if s.len() > 0 {
        lemma_split_pieces_lack(s.drop_first(), sep);
        lemma_split_len(s.drop_first(), sep);
        let rest = split_on(s.drop_first(), sep);
        if s[0] != sep {
            let first = seq![s[0]] + rest[0];
            assert(lacks(rest[0], sep));
            assert forall|k: int| 0 <= k < first.len() implies #[trigger] first[k] != sep by {
                if k > 0 {
                    assert(first[k] == rest[0][k - 1]);
                }
            }
        }
    }
}

/// Text without the separator is one piece.
pub proof fn lemma_split_single(a: Seq<char>, sep: char)
    requires
        lacks(a, sep),
    ensures
        split_on(a, sep) == seq![a],
{
    lemma_split_first(a, sep, a.len() as int);
}

/// Text without the separator, the separator, then the rest: the text is
/// the first piece.
pub proof fn lemma_split_join(a: Seq<char>, sep: char, b: Seq<char>)
    requires
        lacks(a, sep),
    ensures
        split_on(a + seq![sep] + b, sep) == seq![a] + split_on(b, sep),
{
    let s = a + seq![sep] + b;
    assert forall|i: int| 0 <= i < a.len() implies s[i] != sep by {
        assert(s[i] == a[i]);
    }
    lemma_split_first(s, sep, a.len() as int);
    assert(s.take(a.len() as int) =~= a);
    assert(s.skip(a.len() as int + 1) =~= b);
}

/// Text made of newline-terminated lines splits back into those lines and a
/// final empty piece.
pub proof fn lemma_split_lines_text(lines: Seq<Seq<char>>)
    requires
        forall|i: int| 0 <= i < lines.len() ==> lacks(#[trigger] lines[i], '\n'),
    ensures
        split_on(lines_text(lines), '\n') == lines.push(Seq::empty()),
    decreases lines.len(),
{
    if lines.len() == 0 {
        assert(split_on(lines_text(lines), '\n') =~= lines.push(Seq::empty()));
    } else {
        let rest = lines.drop_first();
        assert forall|i: int| 0 <= i < rest.len() implies lacks(#[trigger] rest[i], '\n') by {
            assert(rest[i] == lines[i + 1]);
        }
        lemma_split_lines_text(rest);
        let l = lines[0];
        let s = lines_text(lines);
        assert(s == l + seq!['\n'] + lines_text(rest));
        assert forall|i: int| 0 <= i < l.len() implies s[i] != '\n' by {
            assert(s[i] == l[i]);
        }
        lemma_split_first(s, '\n', l.len() as int);
        assert(s.take(l.len() as int) =~= l);
        assert(s.skip(l.len() as int + 1) =~= lines_text(rest));
        assert(seq![l] + rest.push(Seq::empty()) =~= lines.push(Seq::empty()));
    }
}

pub proof fn lemma_lines_text_concat(a: Seq<Seq<char>>, b: Seq<Seq<char>>)
    ensures
        lines_text(a + b) == lines_text(a) + lines_text(b),
    decreases a.len(),
{
    if a.len() == 0 {
        assert(a + b =~= b);
        assert(lines_text(a) + lines_text(b) =~= lines_text(b));
    } else {
        lemma_lines_text_concat(a.drop_first(), b);
        assert((a + b).drop_first() =~= a.drop_first() + b);
        assert((a + b)[0] == a[0]);
        assert(lines_text(a + b) =~= lines_text(a) + lines_text(b));
    }
}

pub proof fn lemma_lines_text_push(a: Seq<Seq<char>>, l: Seq<char>)
    ensures
        lines_text(a.push(l)) == lines_text(a) + l + seq!['\n'],
{
    lemma_lines_text_concat(a, seq![l]);
    assert(a.push(l) =~= a + seq![l]);
    assert(seq![l].drop_first() =~= Seq::<Seq<char>>::empty());
    assert(lines_text(Seq::<Seq<char>>::empty()) =~= Seq::<char>::empty());
    assert(lines_text(seq![l]) =~= l + seq!['\n']);
    assert(lines_text(a) + (l + seq!['\n']) =~= lines_text(a) + l + seq!['\n']);
}

/// The separator that is found lies inside the text.
pub proof fn lemma_find_sep_bound(s: Seq<char>, i: nat)
    ensures
        find_sep_from(s, i) matches Some(k) ==> i <= k && k + 3 <= s.len(),
    decreases s.len() - i,
{
    if i + 3 <= s.len() && !sep_at(s, i as int) {
        lemma_find_sep_bound(s, i + 1);
    }
}

proof fn lemma_find_sep_key(line: Seq<char>, key: Seq<char>, value: Seq<char>, j: nat)
    requires
        line == attr_line(key, value),
        lacks(key, ' '),
        j <= key.len(),
    ensures
        find_sep_from(line, j) == Some(key.len()),
    decreases key.len() - j,
{
    reveal_strlit(" = ");
    assert(line[key.len() as int] == ' ');
    assert(line[key.len() as int + 1] == '=');
    assert(line[key.len() as int + 2] == ' ');
    if j < key.len() {
        assert(line[j as int] == key[j as int]);
        lemma_find_sep_key(line, key, value, j + 1);
    }
}

/// A key without spaces is read back from its attribute line, with the whole value.
pub proof fn lemma_split_attr_line(key: Seq<char>, value: Seq<char>)
    requires
        lacks(key, ' '),
    ensures
        split_attr(attr_line(key, value)) == Some((key, value)),
{
    let line = attr_line(key, value);
    lemma_find_sep_key(line, key, value, 0);
    reveal_strlit(" = ");
    assert(line.take(key.len() as int) =~= key);
    assert(line.skip(key.len() as int + 3) =~= value);
}

/// The single-character text of a digit.
fn digit_str(d: u64) -> (r: &'static str)
    requires
        d < 10,
    ensures
        r@ == seq![digit_char(d as nat)],
{
    if d == 0 {
        proof { reveal_strlit("0"); }
        "0"
    } else if d == 1 {
        proof { reveal_strlit("1"); }
        "1"
    } else if d == 2 {
        proof { reveal_strlit("2"); }
        "2"
    } else if d == 3 {
        proof { reveal_strlit("3"); }
        "3"
    } else if d == 4 {
        proof { reveal_strlit("4"); }
        "4"
    } else if d == 5 {
        proof { reveal_strlit("5"); }
        "5"
    } else if d == 6 {
        proof { reveal_strlit("6"); }
        "6"
    } else if d == 7 {
        proof { reveal_strlit("7"); }
        "7"
    } else if d == 8 {
        proof { reveal_strlit("8"); }
        "8"
    } else {
        proof { reveal_strlit("9"); }
        "9"
    }
}

/// Appends the decimal text of `n`.
pub fn push_decimal(out: &mut String, n: u64)
    ensures
        final(out)@ == old(out)@ + dec_text(n as nat),
    decreases n,
{
    if n >= 10 {
        push_decimal(out, n / 10);
    }
    out.append(digit_str(n % 10));
    assert(final(out)@ =~= old(out)@ + dec_text(n as nat));
}

/// Reads a non-empty run of decimal digits worth at most `max`.
pub fn parse_number(s: &str, max: u64) -> (r: Option<u64>)
    requires
        max <= 1_000_000,
    ensures
        match r {
            Some(v) => bounded_number(s@, max as nat) == Some(v as nat),
            None => bounded_number(s@, max as nat) is None,
        },
{
    let len = s.unicode_len();
    if len == 0 {
        return None;
    }
    let mut i: usize = 0;
    let mut v: u64 = 0;
    while i < len
        invariant
            0 <= i <= len,
            len == s@.len(),
            all_digits(s@.take(i as int)),
            v as nat == parse_dec(s@.take(i as int)),
            v <= max,
            max <= 1_000_000,
        decreases len - i,
    {
        let c = s.get_char(i);
        if (c as u32) < 48 || (c as u32) > 57 {
            assert(!is_digit(s@[i as int]));
            return None;
        }
        let next = v * 10 + ((c as u32) - 48) as u64;
        proof {
            let t = s@.take(i as int + 1);
            assert(t.drop_last() =~= s@.take(i as int));
            assert(t.last() == c);
            assert(all_digits(t));
        }
        if next > max {
            proof {
                lemma_parse_dec_prefix(s@, i as int + 1);
            }
            return None;
        }
        v = next;
        i = i + 1;
    }
    assert(s@.take(len as int) =~= s@);
    Some(v)
}

pub open spec fn views(v: Seq<String>) -> Seq<Seq<char>> {
    v.map_values(|x: String| x@)
}

/// The pieces of `s` between occurrences of `sep`.
pub fn split_str(s: &str, sep: char) -> (r: Vec<String>)
    ensures
        views(r@) == split_on(s@, sep),
{
    let len = s.unicode_len();
    let mut out: Vec<String> = Vec::new();
    let mut pos: usize = 0;
    assert(s@.skip(0) =~= s@);
    assert(views(out@) + split_on(s@, sep) =~= split_on(s@, sep));
    loop
        invariant
            pos <= len,
            len == s@.len(),
            split_on(s@, sep) == views(out@) + split_on(s@.skip(pos as int), sep),
        decreases len - pos,
    {
        let e = find_char_from(s, len, sep, pos);
        let ghost rest = s@.skip(pos as int);
        proof {
            assert forall|i: int| 0 <= i < e - pos implies rest[i] != sep by {
                assert(rest[i] == s@[pos + i]);
            }
            lemma_split_first(rest, sep, e - pos);
        }
        let piece = String::from_str(s.substring_char(pos, e));
        let ghost before = out@;
        out.push(piece);
        assert(views(out@) =~= views(before).push(piece@));
        assert(rest.take(e - pos) =~= piece@);
        if e == len {
            assert(views(out@) =~= views(before) + seq![rest]);
            return out;
        }
        assert(rest.skip(e - pos + 1) =~= s@.skip(e + 1));
        assert(views(out@) + split_on(s@.skip(e + 1), sep) =~= views(before) + (seq![
            rest.take(e - pos),
        ] + split_on(rest.skip(e - pos + 1), sep)));
        pos = e + 1;
    }
}

/// Whether two texts are equal.
pub fn same_text(a: &str, b: &str) -> (r: bool)
    ensures
        r == (a@ == b@),
{
    let n = a.unicode_len();
    if n != b.unicode_len() {
        return false;
    }
    let mut i: usize = 0;
    while i < n
        invariant
            n == a@.len(),
            n == b@.len(),
            0 <= i <= n,
            forall|k: int| 0 <= k < i ==> a@[k] == b@[k],
        decreases n - i,
    {
        if a.get_char(i) != b.get_char(i) {
            return false;
        }
        i = i + 1;
    }
    assert(a@ =~= b@);
    true
}

/// Position of the first `c` at or after `from`, or the length when there is none.
pub fn find_char_from(s: &str, len: usize, c: char, from: usize) -> (r: usize)
    requires
        len == s@.len(),
        from <= len,
    ensures
        from <= r <= len,
        forall|i: int| from <= i < r ==> s@[i] != c,
        r < len ==> s@[r as int] == c,
{
    let mut i = from;
    while i < len
        invariant
            len == s@.len(),
            from <= i <= len,
            forall|k: int| from <= k < i ==> s@[k] != c,
        decreases len - i,
    {
        if s.get_char(i) == c {
            return i;
        }
        i = i + 1;
    }
    i
}

/// Position of the first `" = "` in a line.
pub fn find_sep(s: &str) -> (r: Option<usize>)
    ensures
        match r {
            Some(i) => i + 3 <= s@.len() && find_sep_from(s@, 0) == Some(i as nat),
            None => find_sep_from(s@, 0) is None,
        },
{
    let len = s.unicode_len();
    let mut i: usize = 0;
    while i < len
        invariant
            len == s@.len(),
            i <= len,
            find_sep_from(s@, 0) == find_sep_from(s@, i as nat),
        decreases len - i,
    {
        if len - i < 3 {
            return None;
        }
        if s.get_char(i) == ' ' && s.get_char(i + 1) == '=' && s.get_char(i + 2) == ' ' {
            return Some(i);
        }
        i = i + 1;
    }
    None
}

} // verus!
