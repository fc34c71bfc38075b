//! Verified text utilities: splitting, trimming and case-insensitive
//! comparison over character sequences.

use vstd::prelude::*;
use vstd::string::{StrSliceExecFns, StringExecFns};

verus! {

/// Relies on `String::push`: appends exactly one character.
#[verifier::external_body]
fn string_push(s: &mut String, c: char)
    ensures
        final(s)@ == old(s)@.push(c),
{
    s.push(c);
}

/// `s` split at every occurrence of `sep`: always at least one segment, one
/// more than there are separators, and an empty segment between adjacent
/// separators.
pub open spec fn split_chars(s: Seq<char>, sep: char) -> Seq<Seq<char>>
    decreases s.len(),
{
    if s.len() == 0 {
        seq![Seq::<char>::empty()]
    } else if s[0] == sep {
        seq![Seq::<char>::empty()] + split_chars(s.skip(1), sep)
    } else {
        let rest = split_chars(s.skip(1), sep);
        seq![seq![s[0]] + rest[0]] + rest.skip(1)
    }
}

/// A split always yields at least one segment.
pub proof fn lemma_split_nonempty(s: Seq<char>, sep: char)
    ensures
        split_chars(s, sep).len() >= 1,
    decreases s.len(),
{
    if s.len() == 0 {
    } else if s[0] == sep {
    } else {
        lemma_split_nonempty(s.skip(1), sep);
    }
}

/// Split `s` at every occurrence of `sep`.
pub fn split_str(s: &str, sep: char) -> (r: Vec<String>)
    ensures
        r.deep_view() == split_chars(s@, sep),
{
    let n = s.unicode_len();
    let mut done: Vec<String> = Vec::new();
    let mut acc = String::new();
    let mut i: usize = 0;
    proof {
        lemma_split_nonempty(s@, sep);
        assert(s@.skip(0) =~= s@);
        assert(done.deep_view() =~= Seq::<Seq<char>>::empty());
        assert(split_chars(s@, sep) =~= done.deep_view() + seq![
            acc@ + split_chars(s@.skip(0), sep)[0],
        ] + split_chars(s@.skip(0), sep).skip(1));
    }
    while i < n
        invariant
            n == s@.len(),
            0 <= i <= n,
            split_chars(s@, sep) == done.deep_view() + seq![
                acc@ + split_chars(s@.skip(i as int), sep)[0],
            ] + split_chars(s@.skip(i as int), sep).skip(1),
        decreases n - i,
    {
        let ghost rem = split_chars(s@.skip(i as int), sep);
        let ghost rem_next = split_chars(s@.skip(i as int + 1), sep);
        proof {
            assert(s@.skip(i as int)[0] == s@[i as int]);
            assert(s@.skip(i as int).skip(1) =~= s@.skip(i as int + 1));
            lemma_split_nonempty(s@.skip(i as int + 1), sep);
        }
        let c = s.get_char(i);
        if c == sep {
            proof {
                assert(rem =~= seq![Seq::<char>::empty()] + rem_next);
                assert(rem[0] =~= Seq::<char>::empty());
                assert(rem.skip(1) =~= rem_next);
            }
            let ghost old_done = done.deep_view();
            let ghost old_acc = acc@;
            done.push(acc);
            acc = String::new();
            proof {
                assert(done.deep_view() =~= old_done.push(old_acc));
                assert(old_acc + rem[0] =~= old_acc);
                assert(old_done + seq![old_acc + rem[0]] + rem.skip(1) =~= done.deep_view() + seq![
                    acc@ + rem_next[0],
                ] + rem_next.skip(1));
            }
        } else {
            let ghost old_acc = acc@;
            string_push(&mut acc, c);
            proof {
                assert(rem =~= seq![seq![s@[i as int]] + rem_next[0]] + rem_next.skip(1));
                assert(rem[0] =~= seq![s@[i as int]] + rem_next[0]);
                assert(rem.skip(1) =~= rem_next.skip(1));
                assert(old_acc + rem[0] =~= acc@ + rem_next[0]);
                assert(done.deep_view() + seq![old_acc + rem[0]] + rem.skip(1) =~= done.deep_view()
                    + seq![acc@ + rem_next[0]] + rem_next.skip(1));
            }
        }
        i = i + 1;
    }
    proof {
        assert(s@.skip(n as int) =~= Seq::<char>::empty());
        let rem = split_chars(s@.skip(n as int), sep);
        assert(rem =~= seq![Seq::<char>::empty()]);
        assert(acc@ + rem[0] =~= acc@);
        assert(rem.skip(1) =~= Seq::<Seq<char>>::empty());
    }
    let ghost old_done = done.deep_view();
    let ghost last = acc@;
    done.push(acc);
    proof {
        assert(done.deep_view() =~= old_done.push(last));
        assert(old_done + seq![last] + Seq::<Seq<char>>::empty() =~= old_done.push(last));
    }
    done
}

/// Whether two texts hold the same characters.
pub fn str_equal(a: &str, b: &str) -> (r: bool)
    ensures
        r == (a@ == b@),
{
    let na = a.unicode_len();
    let nb = b.unicode_len();
    if na != nb {
        return false;
    }
    let mut i: usize = 0;
    while i < na
        invariant
            na == a@.len(),
            na == b@.len(),
            0 <= i <= na,
            forall|j: int| 0 <= j < i ==> a@[j] == b@[j],
        decreases na - i,
    {
        if a.get_char(i) != b.get_char(i) {
            proof {
                assert(a@[i as int] != b@[i as int]);
            }
            return false;
        }
        i = i + 1;
    }
    proof {
        assert(a@ =~= b@);
    }
    true
}

/// Whether one of `names` holds the same characters as `target`.
pub fn names_contain(names: &Vec<String>, target: &str) -> (r: bool)
    ensures
        r == names.deep_view().contains(target@),
{
    let ghost all = names.deep_view();
    let mut i: usize = 0;
    while i < names.len()
        invariant
            all == names.deep_view(),
            0 <= i <= names.len(),
            forall|j: int| 0 <= j < i ==> all[j] != target@,
        decreases names.len() - i,
    {
        if str_equal(names[i].as_str(), target) {
            proof {
                assert(all[i as int] == target@);
                assert(all.contains(target@));
            }
            return true;
        }
        i = i + 1;
    }
    proof {
        assert(!all.contains(target@));
    }
    false
}

/// A text free of the separator splits into itself alone.
pub proof fn lemma_split_no_sep(s: Seq<char>, sep: char)
    requires
        forall|i: int| 0 <= i < s.len() ==> s[i] != sep,
    ensures
        split_chars(s, sep) == seq![s],
    decreases s.len(),
{
    if s.len() == 0 {
        assert(s =~= Seq::<char>::empty());
    } else {
        lemma_split_no_sep(s.skip(1), sep);
        let rest = split_chars(s.skip(1), sep);
        assert(rest[0] == s.skip(1));
        assert(seq![s[0]] + s.skip(1) =~= s);
        assert(split_chars(s, sep) =~~= seq![s]);
    }
}

/// Splitting at the first separator: the separator-free prefix becomes the
/// first segment, and the rest splits on its own.
pub proof fn lemma_split_concat(a: Seq<char>, rest: Seq<char>, sep: char)
    requires
        forall|i: int| 0 <= i < a.len() ==> a[i] != sep,
    ensures
        split_chars(a + seq![sep] + rest, sep) == seq![a] + split_chars(rest, sep),
    decreases a.len(),
{
    let s = a + seq![sep] + rest;
    if a.len() == 0 {
        assert(s[0] == sep);
        assert(s.skip(1) =~= rest);
        assert(a =~= Seq::<char>::empty());
        assert(split_chars(s, sep) =~~= seq![a] + split_chars(rest, sep));
    } else {
        assert(s[0] == a[0]);
        assert(s.skip(1) =~= a.skip(1) + seq![sep] + rest);
        lemma_split_concat(a.skip(1), rest, sep);
        let q = split_chars(s.skip(1), sep);
        assert(q == seq![a.skip(1)] + split_chars(rest, sep));
        assert(q[0] == a.skip(1));
        assert(q.skip(1) =~= split_chars(rest, sep));
        assert(seq![s[0]] + q[0] =~= a);
        assert(split_chars(s, sep) =~~= seq![a] + split_chars(rest, sep));
    }
}

/// Splitting inverts joining: parts free of the separator, joined by it,
/// split back into exactly those parts.
pub proof fn lemma_split_joined(parts: Seq<Seq<char>>, sep: char)
    requires
        parts.len() >= 1,
        forall|j: int, i: int|
            0 <= j < parts.len() && 0 <= i < parts[j].len() ==> #[trigger] parts[j][i] != sep,
    ensures
        split_chars(crate::sql::joined(parts, seq![sep]), sep) == parts,
    decreases parts.len(),
{
    if parts.len() == 1 {
        lemma_split_no_sep(parts[0], sep);
        assert(seq![parts[0]] =~~= parts);
    } else {
        let tail = crate::sql::joined(parts.skip(1), seq![sep]);
        assert(crate::sql::joined(parts, seq![sep]) == parts[0] + seq![sep] + tail);
        lemma_split_concat(parts[0], tail, sep);
        assert(forall|j: int, i: int|
            0 <= j < parts.skip(1).len() && 0 <= i < parts.skip(1)[j].len()
                ==> #[trigger] parts.skip(1)[j][i] != sep) by {
            assert(forall|j: int|
                0 <= j < parts.skip(1).len() ==> parts.skip(1)[j] == parts[j + 1]);
        }
        lemma_split_joined(parts.skip(1), sep);
        assert(seq![parts[0]] + parts.skip(1) =~~= parts);
    }
}

/// The characters this library trims from either end of a schema token.
pub open spec fn is_trim_space(c: char) -> bool {
    c == ' ' || c == '\t' || c == '\n' || c == '\r'
}

/// `s` without leading trim characters.
pub open spec fn trim_front(s: Seq<char>) -> Seq<char>
    decreases s.len(),
{
    if s.len() > 0 && is_trim_space(s[0]) {
        trim_front(s.skip(1))
    } else {
        s
    }
}

/// `s` without trailing trim characters.
pub open spec fn trim_back(s: Seq<char>) -> Seq<char>
    decreases s.len(),
{
    if s.len() > 0 && is_trim_space(s[s.len() - 1]) {
        trim_back(s.drop_last())
    } else {
        s
    }
}

/// `s` without leading and trailing trim characters.
pub open spec fn trimmed(s: Seq<char>) -> Seq<char> {
    trim_back(trim_front(s))
}

fn is_space_char(c: char) -> (r: bool)
    ensures
        r == is_trim_space(c),
{
    c == ' ' || c == '\t' || c == '\n' || c == '\r'
}

/// Trim whitespace from both ends of `s`.
pub fn trim_str(s: &str) -> (r: &str)
    ensures
        r@ == trimmed(s@),
{
    let n = s.unicode_len();
    let mut a: usize = 0;
    proof {
        assert(s@.skip(0) =~= s@);
    }
    while a < n && is_space_char(s.get_char(a))
        invariant
            n == s@.len(),
            0 <= a <= n,
            trim_front(s@) == trim_front(s@.skip(a as int)),
        decreases n - a,
    {
        proof {
            assert(s@.skip(a as int)[0] == s@[a as int]);
            assert(s@.skip(a as int).skip(1) =~= s@.skip(a as int + 1));
        }
        a = a + 1;
    }
    proof {
        if a == n {
            assert(s@.skip(a as int) =~= Seq::<char>::empty());
        }
        assert(trim_front(s@) == s@.skip(a as int));
    }
    let ghost u = s@.skip(a as int);
    let mut b: usize = n;
    proof {
        assert(u.take(n - a) =~= u);
    }
    while b > a && is_space_char(s.get_char(b - 1))
        invariant
            n == s@.len(),
            u == s@.skip(a as int),
            a <= b <= n,
            trim_back(u) == trim_back(u.take(b - a)),
        decreases b,
    {
        proof {
            let v = u.take(b - a);
            assert(v[v.len() - 1] == s@[b - 1]);
            assert(v.drop_last() =~= u.take(b - 1 - a));
        }
        b = b - 1;
    }
    proof {
        let v = u.take(b - a);
        if b == a {
            assert(v =~= Seq::<char>::empty());
        } else {
            assert(v[v.len() - 1] == s@[b - 1]);
        }
        assert(trim_back(v) == v);
        assert(v =~= s@.subrange(a as int, b as int));
    }
    s.substring_char(a, b)
}

/// The code a character compares by when case is ignored: ASCII lower-case
/// letters fold to their upper-case counterpart, all else is unchanged.
pub open spec fn upper_code(c: char) -> int {
    if 97 <= c as u32 && c as u32 <= 122 {
        c as u32 - 32
    } else {
        c as u32 as int
    }
}

/// Character sequences equal when ASCII case is ignored.
pub open spec fn ci_equal(a: Seq<char>, b: Seq<char>) -> bool {
    a.len() == b.len() && forall|i: int| 0 <= i < a.len() ==> upper_code(a[i]) == upper_code(b[i])
}

fn upper_code_of(c: char) -> (r: u32)
    ensures
        r == upper_code(c),
{
    let code = c as u32;
    if 97 <= code && code <= 122 {
        code - 32
    } else {
        code
    }
}

/// Compare two texts ignoring ASCII case.
pub fn eq_ignore_ascii_case(a: &str, b: &str) -> (r: bool)
    ensures
        r == ci_equal(a@, b@),
{
    let na = a.unicode_len();
    let nb = b.unicode_len();
    if na != nb {
        return false;
    }
    let mut i: usize = 0;
    while i < na
        invariant
            na == a@.len(),
            na == b@.len(),
            0 <= i <= na,
            forall|j: int| 0 <= j < i ==> upper_code(a@[j]) == upper_code(b@[j]),
        decreases na - i,
    {
        if upper_code_of(a.get_char(i)) != upper_code_of(b.get_char(i)) {
            return false;
        }
        i = i + 1;
    }
    true
}

/// Names the overlay accepts for a table: ASCII letters, digits and
/// underscores only, which cannot smuggle statement syntax into the SQL the
/// overlay builds around them.
pub open spec fn is_ident_char(c: char) -> bool {
    (48 <= c as u32 && c as u32 <= 57) || (65 <= c as u32 && c as u32 <= 90) || (97 <= c as u32
        && c as u32 <= 122) || c == '_'
}

fn is_ident_char_exec(c: char) -> (r: bool)
    ensures
        r == is_ident_char(c),
{
    let code = c as u32;
    (48 <= code && code <= 57) || (65 <= code && code <= 90) || (97 <= code && code <= 122) || c
        == '_'
}

/// Whether every character of `s` may stand in a table name.
pub fn is_valid_table_name(s: &str) -> (r: bool)
    ensures
        r == forall|i: int| 0 <= i < s@.len() ==> is_ident_char(s@[i]),
{
    let n = s.unicode_len();
    let mut i: usize = 0;
    while i < n
        invariant
            n == s@.len(),
            0 <= i <= n,
            forall|j: int| 0 <= j < i ==> is_ident_char(s@[j]),
        decreases n - i,
    {
        if !is_ident_char_exec(s.get_char(i)) {
            return false;
        }
        i = i + 1;
    }
    true
}

} // verus!
