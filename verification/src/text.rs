//! Character-level helpers for names and paths: dictionary order, splitting a
//! path into its components, joining paths, and decimal numerals.

use vstd::prelude::*;
use vstd::string::*;

verus! {

/// The characters of `s`, in order.
pub fn chars_of(s: &str) -> (out: Vec<char>)
    ensures
        out@ == s@,
{
    let mut out: Vec<char> = Vec::new();
    for c in it: s.chars()
        invariant
            out@ == it.seq().take(it.index() as int),
            it.seq() == s@,
    {
        out.push(c);
    }
    out
}

/// Whether two character vectors hold the same text.
pub fn chars_eq(a: &Vec<char>, b: &Vec<char>) -> (same: bool)
    ensures
        same == (a@ == b@),
{
    if a.len() != b.len() {
        return false;
    }
    let mut i: usize = 0;
    while i < a.len()
        invariant
            a.len() == b.len(),
            i <= a.len(),
            a@.take(i as int) == b@.take(i as int),
        decreases a.len() - i,
    {
        if a[i] != b[i] {
            return false;
        }
        assert(a@.take(i + 1) == a@.take(i as int).push(a@[i as int]));
        assert(b@.take(i + 1) == b@.take(i as int).push(b@[i as int]));
        i += 1;
    }
    assert(a@ == a@.take(a.len() as int));
    assert(b@ == b@.take(b.len() as int));
    true
}

/// Whether two strings hold the same text.
pub fn same_text(a: &str, b: &str) -> (same: bool)
    ensures
        same == (a@ == b@),
{
    let ca = chars_of(a);
    let cb = chars_of(b);
    chars_eq(&ca, &cb)
}

/// Whether `prefix` opens `s`.
pub open spec fn is_prefix(prefix: Seq<char>, s: Seq<char>) -> bool {
    prefix.len() <= s.len() && s.take(prefix.len() as int) == prefix
}

/// Whether `prefix` opens `s`, on character vectors.
pub fn chars_start_with(s: &Vec<char>, prefix: &Vec<char>) -> (yes: bool)
    ensures
        yes == is_prefix(prefix@, s@),
{
    if prefix.len() > s.len() {
        return false;
    }
    let mut i: usize = 0;
    while i < prefix.len()
        invariant
            prefix.len() <= s.len(),
            i <= prefix.len(),
            s@.take(i as int) == prefix@.take(i as int),
        decreases prefix.len() - i,
    {
        if s[i] != prefix[i] {
            assert(s@.take(prefix.len() as int)[i as int] != prefix@[i as int]);
            return false;
        }
        assert(s@.take(i + 1) == s@.take(i as int).push(s@[i as int]));
        assert(prefix@.take(i + 1) == prefix@.take(i as int).push(prefix@[i as int]));
        i += 1;
    }
    assert(prefix@ == prefix@.take(prefix.len() as int));
    true
}

// ---------------------------------------------------------------------------
// Dictionary order
// ---------------------------------------------------------------------------

/// `a` comes no later than `b` in dictionary order, characters compared by
/// code point. A proper prefix comes before the longer text.
pub open spec fn lex_le(a: Seq<char>, b: Seq<char>) -> bool
    decreases a.len(),
{
    if a.len() == 0 {
        true
    } else if b.len() == 0 {
        false
    } else if a[0] == b[0] {
        lex_le(a.drop_first(), b.drop_first())
    } else {
        (a[0] as u32) < (b[0] as u32)
    }
}

/// The dictionary order as a relation, for use with sorting specifications.
pub open spec fn name_order() -> spec_fn(Seq<char>, Seq<char>) -> bool {
    |a: Seq<char>, b: Seq<char>| lex_le(a, b)
}

/// Distinct characters have distinct code points.
pub proof fn lemma_code_point_injective(c: char, d: char)
    ensures
        (c as u32) == (d as u32) ==> c == d,
{
    vstd::utf8::char_u32_cast(c, c as u32);
    vstd::utf8::char_u32_cast(d, d as u32);
}

/// Every text comes no later than itself.
pub proof fn lemma_lex_le_reflexive(a: Seq<char>)
    ensures
        lex_le(a, a),
    decreases a.len(),
{
    if a.len() > 0 {
        lemma_lex_le_reflexive(a.drop_first());
    }
}

/// Two texts that each come no later than the other are the same text.
pub proof fn lemma_lex_le_antisymmetric(a: Seq<char>, b: Seq<char>)
    requires
        lex_le(a, b),
        lex_le(b, a),
    ensures
        a == b,
    decreases a.len(),
{
    if a.len() == 0 {
        assert(b.len() == 0);
        assert(a =~= b);
    } else {
        assert(b.len() > 0);
        assert(a[0] == b[0]);
        lemma_lex_le_antisymmetric(a.drop_first(), b.drop_first());
        assert(a =~= seq![a[0]] + a.drop_first());
        assert(b =~= seq![b[0]] + b.drop_first());
    }
}

/// The dictionary order is transitive.
pub proof fn lemma_lex_le_transitive(a: Seq<char>, b: Seq<char>, c: Seq<char>)
    requires
        lex_le(a, b),
        lex_le(b, c),
    ensures
        lex_le(a, c),
    decreases a.len(),
{
    if a.len() > 0 {
        assert(b.len() > 0);
        assert(c.len() > 0);
        if a[0] == b[0] && b[0] == c[0] {
            lemma_lex_le_transitive(a.drop_first(), b.drop_first(), c.drop_first());
        }
    }
}

/// Of two texts one comes no later than the other.
pub proof fn lemma_lex_le_connected(a: Seq<char>, b: Seq<char>)
    ensures
        lex_le(a, b) || lex_le(b, a),
    decreases a.len(),
{
    if a.len() > 0 && b.len() > 0 {
        if a[0] == b[0] {
            lemma_lex_le_connected(a.drop_first(), b.drop_first());
        } else {
            lemma_code_point_injective(a[0], b[0]);
        }
    }
}

/// The dictionary order is a total order on texts.
pub proof fn lemma_name_order_total()
    ensures
        vstd::relations::total_ordering(name_order()),
{
    let r = name_order();
    assert forall|x: Seq<char>| #[trigger] r(x, x) by {
        lemma_lex_le_reflexive(x);
    }
    assert forall|x: Seq<char>, y: Seq<char>| #[trigger] r(x, y) && #[trigger] r(y, x) implies x
        == y by {
        lemma_lex_le_antisymmetric(x, y);
    }
    assert forall|x: Seq<char>, y: Seq<char>, z: Seq<char>| #[trigger]
        r(x, y) && #[trigger] r(y, z) implies r(x, z) by {
        lemma_lex_le_transitive(x, y, z);
    }
    assert forall|x: Seq<char>, y: Seq<char>| #[trigger] r(x, y) || #[trigger] r(y, x) by {
        lemma_lex_le_connected(x, y);
    }
}

/// Decides the dictionary order on character vectors.
pub fn chars_le(a: &Vec<char>, b: &Vec<char>) -> (le: bool)
    ensures
        le == lex_le(a@, b@),
{
    let mut i: usize = 0;
    assert(a@.skip(0) == a@);
    assert(b@.skip(0) == b@);
    while i < a.len() && i < b.len() && a[i] == b[i]
        invariant
            i <= a.len(),
            i <= b.len(),
            lex_le(a@, b@) == lex_le(a@.skip(i as int), b@.skip(i as int)),
        decreases a.len() - i,
    {
        assert(a@.skip(i as int).drop_first() == a@.skip(i + 1));
        assert(b@.skip(i as int).drop_first() == b@.skip(i + 1));
        i += 1;
    }
    if i == a.len() {
        true
    } else if i == b.len() {
        false
    } else {
        (a[i] as u32) < (b[i] as u32)
    }
}

// ---------------------------------------------------------------------------
// Path components
// ---------------------------------------------------------------------------

/// The character that separates the components of a path.
pub open spec fn is_separator(c: char) -> bool {
    c == '/'
}

/// `cur` as a one-element list when it holds anything, else the empty list.
pub open spec fn pending(cur: Seq<char>) -> Seq<Seq<char>> {
    if cur.len() > 0 {
        seq![cur]
    } else {
        Seq::empty()
    }
}

/// The components of `cur + s`, where `cur` is the part already read of the
/// component under way and holds no separator.
pub open spec fn split_from(s: Seq<char>, cur: Seq<char>) -> Seq<Seq<char>>
    decreases s.len(),
{
    if s.len() == 0 {
        pending(cur)
    } else if is_separator(s[0]) {
        pending(cur) + split_from(s.drop_first(), Seq::empty())
    } else {
        split_from(s.drop_first(), cur.push(s[0]))
    }
}

/// The components of a path: its maximal runs of characters other than the
/// separator, from left to right. Empty runs (a leading, trailing or doubled
/// separator) give no component.
pub open spec fn components(path: Seq<char>) -> Seq<Seq<char>> {
    split_from(path, Seq::empty())
}

/// Each of `parts` holds at least one character and no separator.
pub open spec fn hold_text(parts: Seq<Seq<char>>) -> bool {
    forall|k: int|
        0 <= k < parts.len() ==> (#[trigger] parts[k]).len() > 0 && forall|j: int|
            0 <= j < parts[k].len() ==> !is_separator(#[trigger] parts[k][j])
}

/// Every component holds at least one character, and none holds a
/// separator.
pub proof fn lemma_components_hold_text(name: Seq<char>)
    ensures
        hold_text(components(name)),
{
    lemma_split_holds_text(name, Seq::empty());
}

proof fn lemma_split_holds_text(s: Seq<char>, cur: Seq<char>)
    requires
        forall|j: int| 0 <= j < cur.len() ==> !is_separator(#[trigger] cur[j]),
    ensures
        hold_text(split_from(s, cur)),
    decreases s.len(),
{
    let out = split_from(s, cur);
    if s.len() == 0 {
        assert forall|k: int| 0 <= k < out.len() implies (#[trigger] out[k]) == cur by {}
    } else if is_separator(s[0]) {
        let tail = split_from(s.drop_first(), Seq::empty());
        lemma_split_holds_text(s.drop_first(), Seq::empty());
        assert forall|k: int| 0 <= k < out.len() implies (#[trigger] out[k]).len() > 0
            && forall|j: int|
            0 <= j < out[k].len() ==> !is_separator(#[trigger] out[k][j]) by {
            if k < pending(cur).len() {
                assert(out[k] == cur);
            } else {
                assert(out[k] == tail[k - pending(cur).len()]);
            }
        }
    } else {
        lemma_split_holds_text(s.drop_first(), cur.push(s[0]));
    }
}

/// The texts that a vector of strings holds.
pub open spec fn texts(v: Seq<String>) -> Seq<Seq<char>> {
    v.map_values(|s: String| s@)
}

/// Splits a path into its components.
pub fn path_components(path: &str) -> (out: Vec<String>)
    ensures
        texts(out@) == components(path@),
{
    let chars = chars_of(path);
    let n = chars.len();
    let mut out: Vec<String> = Vec::new();
    let mut start: usize = 0;
    let mut i: usize = 0;
    assert(path@.skip(0) == path@);
    assert(path@.subrange(0, 0) == Seq::<char>::empty());
    assert(texts(out@) + components(path@) == components(path@));
    while i < n
        invariant
            chars@ == path@,
            n == chars.len(),
            start <= i <= n,
            components(path@) == texts(out@) + split_from(
                path@.skip(i as int),
                path@.subrange(start as int, i as int)),
        decreases n - i,
    {
        let ghost rest = path@.skip(i as int);
        let ghost cur = path@.subrange(start as int, i as int);
        assert(rest.drop_first() == path@.skip(i + 1));
        assert(rest[0] == path@[i as int]);
        if chars[i] == '/' {
            if start < i {
                let piece = String::from_str(path.substring_char(start, i));
                let ghost before = texts(out@);
                out.push(piece);
                assert(texts(out@) == before + pending(cur)) by {
                    assert(texts(out@) =~= before.push(cur));
                    assert(before.push(cur) =~= before + seq![cur]);
                }
            } else {
                assert(texts(out@) + pending(cur) =~= texts(out@));
            }
            start = i + 1;
            assert(path@.subrange(start as int, i + 1) == Seq::<char>::empty());
            assert(texts(out@) + split_from(path@.skip(i + 1), Seq::empty())
                == components(path@)) by {
                let ghost tail = split_from(path@.skip(i + 1), Seq::empty());
                assert(split_from(rest, cur) == pending(cur) + tail);
            }
        } else {
            assert(cur.push(path@[i as int]) == path@.subrange(start as int, i + 1));
        }
        i += 1;
    }
    let ghost cur = path@.subrange(start as int, n as int);
    assert(path@.skip(n as int).len() == 0);
    if start < n {
        let piece = String::from_str(path.substring_char(start, n));
        let ghost before = texts(out@);
        out.push(piece);
        assert(texts(out@) =~= before.push(cur));
        assert(before.push(cur) =~= before + seq![cur]);
    } else {
        assert(texts(out@) + pending(cur) =~= texts(out@));
    }
    out
}

/// `path` without the leading `root`, or `path` itself where `root` does not
/// open it.
pub open spec fn without_root(path: Seq<char>, root: Seq<char>) -> Seq<char> {
    if is_prefix(root, path) {
        path.skip(root.len() as int)
    } else {
        path
    }
}

/// Removes the scan root from the front of a path.
pub fn strip_root<'a>(path: &'a str, root: &str) -> (rest: &'a str)
    ensures
        rest@ == without_root(path@, root@),
{
    let p = chars_of(path);
    let r = chars_of(root);
    if chars_start_with(&p, &r) {
        let rest = path.substring_char(r.len(), p.len());
        assert(path@.subrange(r.len() as int, p.len() as int) == path@.skip(r.len() as int));
        rest
    } else {
        path
    }
}

// ---------------------------------------------------------------------------
// Joining paths
// ---------------------------------------------------------------------------

/// `base` extended by `segment` the way a path buffer grows: an absolute
/// segment replaces the base, any other is appended, after a separator unless
/// the base is empty or already ends in one.
pub open spec fn joined(base: Seq<char>, segment: Seq<char>) -> Seq<char> {
    if segment.len() > 0 && segment[0] == '/' {
        segment
    } else if base.len() == 0 || base.last() == '/' {
        base + segment
    } else {
        base + seq!['/'] + segment
    }
}

/// Appends one segment to a path.
pub fn join_path(base: &str, segment: &str) -> (out: String)
    ensures
        out@ == joined(base@, segment@),
{
    let b = chars_of(base);
    let s = chars_of(segment);
    if s.len() > 0 && s[0] == '/' {
        String::from_str(segment)
    } else {
        let mut out = String::from_str(base);
        if b.len() > 0 && b[b.len() - 1] != '/' {
            proof {
                reveal_strlit("/");
            }
            out.append("/");
            assert("/"@ =~= seq!['/']);
        }
        out.append(segment);
        out
    }
}

// ---------------------------------------------------------------------------
// Sorting names
// ---------------------------------------------------------------------------

/// `names` in dictionary order.
pub open spec fn sorted_names(names: Seq<Seq<char>>) -> Seq<Seq<char>> {
    names.sort_by(name_order())
}

/// The sorted list holds what the given list holds, in dictionary order, and
/// it is the only list that does.
pub proof fn lemma_sorted_names(names: Seq<Seq<char>>)
    ensures
        sorted_names(names).to_multiset() == names.to_multiset(),
        sorted_names(names).len() == names.len(),
        vstd::relations::sorted_by(sorted_names(names), name_order()),
        forall|other: Seq<Seq<char>>|
            other.to_multiset() == names.to_multiset() && vstd::relations::sorted_by(
                other,
                name_order(),
            ) ==> other == sorted_names(names),
{
    lemma_name_order_total();
    names.lemma_sort_by_ensures(name_order());
    vstd::seq_lib::to_multiset_len(names);
    vstd::seq_lib::to_multiset_len(sorted_names(names));
    assert forall|other: Seq<Seq<char>>|
        other.to_multiset() == names.to_multiset() && vstd::relations::sorted_by(
            other,
            name_order(),
        ) implies other == sorted_names(names) by {
        vstd::seq_lib::lemma_sorted_unique(other, sorted_names(names), name_order());
    }
}

/// Sorts names into dictionary order. Names that are equal stay in the order
/// in which they came.
pub fn sort_names(names: &Vec<String>) -> (out: Vec<String>)
    ensures
        texts(out@) == sorted_names(texts(names@)),
{
    let ghost all = texts(names@);
    let mut out: Vec<String> = Vec::new();
    let mut keys: Vec<Vec<char>> = Vec::new();
    let mut i: usize = 0;
    proof {
        lemma_name_order_total();
        assert(all.take(0) == Seq::<Seq<char>>::empty());
        assert(texts(out@) == Seq::<Seq<char>>::empty());
    }
    while i < names.len()
        invariant
            i <= names.len(),
            all == texts(names@),
            keys.len() == out.len(),
            forall|k: int| 0 <= k < keys.len() ==> (#[trigger] keys@[k])@ == out@[k]@,
            vstd::relations::sorted_by(texts(out@), name_order()),
            texts(out@).to_multiset() == all.take(i as int).to_multiset(),
            vstd::relations::total_ordering(name_order()),
        decreases names.len() - i,
    {
        let key = chars_of(names[i].as_str());
        let mut p: usize = 0;
        while p < keys.len() && chars_le(&keys[p], &key)
            invariant
                p <= keys.len(),
                keys.len() == out.len(),
                forall|k: int| 0 <= k < keys.len() ==> (#[trigger] keys@[k])@ == out@[k]@,
                forall|q: int| 0 <= q < p ==> lex_le(#[trigger] out@[q]@, key@),
            decreases keys.len() - p,
        {
            p += 1;
        }
        let ghost before = texts(out@);
        let ghost name = names@[i as int]@;
        assert(key@ == name);
        out.insert(p, names[i].clone());
        keys.insert(p, key);
        proof {
            let after = texts(out@);
            assert(after =~= before.insert(p as int, name));
            vstd::seq_lib::to_multiset_insert(before, p as int, name);
            assert(all.take(i + 1) == all.take(i as int).push(name));
            vstd::seq_lib::to_multiset_build(all.take(i as int), name);
            assert forall|x: int, y: int| 0 <= x < y < after.len() implies #[trigger] name_order()(
                after[x],
                after[y],
            ) by {
                if y < p {
                    assert(name_order()(before[x], before[y]));
                } else if y == p {
                    assert(lex_le(before[x], name));
                } else if x < p {
                    assert(name_order()(before[x], before[y - 1]));
                } else if x == p {
                    // The scan stopped at `p` because the name there comes
                    // strictly after the new one.
                    assert(!lex_le(before[p as int], name));
                    lemma_lex_le_connected(before[p as int], name);
                    if y - 1 > p {
                        assert(name_order()(before[p as int], before[y - 1]));
                        lemma_lex_le_transitive(name, before[p as int], before[y - 1]);
                    }
                } else {
                    assert(name_order()(before[x - 1], before[y - 1]));
                }
            }
        }
        i += 1;
    }
    proof {
        assert(all.take(names.len() as int) == all);
        all.lemma_sort_by_ensures(name_order());
        vstd::seq_lib::lemma_sorted_unique(texts(out@), sorted_names(all), name_order());
    }
    out
}

// ---------------------------------------------------------------------------
// Decimal numerals
// ---------------------------------------------------------------------------

/// The character of one decimal digit.
pub open spec fn digit(d: nat) -> char
    recommends
        d < 10,
{
    if d == 0 {
        '0'
    } else if d == 1 {
        '1'
    } else if d == 2 {
        '2'
    } else if d == 3 {
        '3'
    } else if d == 4 {
        '4'
    } else if d == 5 {
        '5'
    } else if d == 6 {
        '6'
    } else if d == 7 {
        '7'
    } else if d == 8 {
        '8'
    } else {
        '9'
    }
}

/// The decimal numeral of a natural number, without leading zeros.
pub open spec fn decimal_nat(n: nat) -> Seq<char>
    decreases n,
{
    if n < 10 {
        seq![digit(n)]
    } else {
        decimal_nat(n / 10).push(digit(n % 10))
    }
}

/// The decimal numeral of an integer: a minus sign before the numeral of the
/// magnitude where the integer is negative.
pub open spec fn decimal(n: int) -> Seq<char> {
    if n < 0 {
        seq!['-'] + decimal_nat((-n) as nat)
    } else {
        decimal_nat(n as nat)
    }
}

fn digit_text(d: u32) -> (s: &'static str)
    requires
        d < 10,
    ensures
        s@ == seq![digit(d as nat)],
{
    proof {
        reveal_strlit("0");
        reveal_strlit("1");
        reveal_strlit("2");
        reveal_strlit("3");
        reveal_strlit("4");
        reveal_strlit("5");
        reveal_strlit("6");
        reveal_strlit("7");
        reveal_strlit("8");
        reveal_strlit("9");
    }
    let s = if d == 0 {
        "0"
    } else if d == 1 {
        "1"
    } else if d == 2 {
        "2"
    } else if d == 3 {
        "3"
    } else if d == 4 {
        "4"
    } else if d == 5 {
        "5"
    } else if d == 6 {
        "6"
    } else if d == 7 {
        "7"
    } else if d == 8 {
        "8"
    } else {
        "9"
    };
    assert(s@ =~= seq![digit(d as nat)]);
    s
}

fn append_decimal(out: &mut String, n: u32)
    ensures
        final(out)@ == old(out)@ + decimal_nat(n as nat),
    decreases n,
{
    if n >= 10 {
        append_decimal(out, n / 10);
    }
    out.append(digit_text(n % 10));
    assert(final(out)@ =~= old(out)@ + decimal_nat(n as nat)) by {
        if n >= 10 {
            assert(decimal_nat(n as nat) == decimal_nat((n / 10) as nat).push(
                digit((n % 10) as nat),
            ));
        }
    }
}

/// Writes an identifier as a decimal numeral.
pub fn decimal_text(n: i32) -> (out: String)
    ensures
        out@ == decimal(n as int),
{
    let mut out = String::new();
    if n < 0 {
        proof {
            reveal_strlit("-");
        }
        out.append("-");
        assert(out@ =~= seq!['-']);
        let magnitude: u32 = if n == i32::MIN {
            2147483648u32
        } else {
            (-n) as u32
        };
        append_decimal(&mut out, magnitude);
    } else {
        append_decimal(&mut out, n as u32);
        assert(out@ =~= decimal_nat(n as nat));
    }
    out
}

} // verus!
