//! Rewriting of named placeholders (`:name`) as positional ones (`$1`).
use vstd::prelude::*;
use crate::text::{decimal, push_decimal, push_range, range_is};

verus! {

pub open spec fn is_ident_start(c: char) -> bool {
    ('A' <= c && c <= 'Z') || ('a' <= c && c <= 'z') || c == '_'
}

pub open spec fn is_ident_char(c: char) -> bool {
    is_ident_start(c) || ('0' <= c && c <= '9')
}

/// The end of the run of identifier characters of `s` that starts at `j`.
pub open spec fn ident_end(s: Seq<char>, j: nat) -> nat
    decreases s.len() - j,
{
    if j < s.len() && is_ident_char(s[j as int]) {
        ident_end(s, j + 1)
    } else {
        j
    }
}

pub proof fn lemma_ident_end(s: Seq<char>, j: nat)
    ensures
        j <= ident_end(s, j),
        j <= s.len() ==> ident_end(s, j) <= s.len(),
        forall|k: int| j <= k < ident_end(s, j) ==> is_ident_char(#[trigger] s[k]),
        ident_end(s, j) < s.len() ==> !is_ident_char(s[ident_end(s, j) as int]),
    decreases s.len() - j,
{
    if j < s.len() && is_ident_char(s[j as int]) {
        lemma_ident_end(s, j + 1);
    }
}

/// The position of the first entry of `names`, from `k` on, that equals `n`.
pub open spec fn index_from(names: Seq<Seq<char>>, n: Seq<char>, k: nat) -> Option<nat>
    decreases names.len() - k,
{
    if k >= names.len() {
        None
    } else if names[k as int] == n {
        Some(k)
    } else {
        index_from(names, n, k + 1)
    }
}

pub proof fn lemma_index_from(names: Seq<Seq<char>>, n: Seq<char>, k: nat)
    ensures
        index_from(names, n, k) matches Some(p) ==> k <= p < names.len() && names[p as int] == n,
        index_from(names, n, k) is None ==> forall|j: int| k <= j < names.len() ==> names[j] != n,
    decreases names.len() - k,
{
    if k < names.len() && names[k as int] != n {
        lemma_index_from(names, n, k + 1);
    }
}

/// The position of the first entry of `names` that equals `n`.
pub open spec fn index_of(names: Seq<Seq<char>>, n: Seq<char>) -> Option<nat> {
    index_from(names, n, 0)
}

/// Whether a placeholder starts at `i`: a colon followed by an identifier.
pub open spec fn placeholder_at(s: Seq<char>, i: nat) -> bool {
    i + 1 < s.len() && s[i as int] == ':' && is_ident_start(s[i + 1int])
}

/// `s` from position `i` on, with each placeholder whose name is in `names`
/// replaced by `$` and its 1-based position; other placeholders, and every
/// other character, stay as they are. The character that ends a name is not
/// part of the placeholder, and the scan goes on from it.
pub open spec fn rewrite_from(s: Seq<char>, names: Seq<Seq<char>>, i: nat) -> Seq<char>
    decreases s.len() - i,
    via rewrite_from_decreases
{
    if i >= s.len() {
        Seq::empty()
    } else if placeholder_at(s, i) {
        let e = ident_end(s, i + 1);
        match index_of(names, s.subrange(i + 1int, e as int)) {
            Some(p) => seq!['$'] + decimal(p + 1) + rewrite_from(s, names, e),
            None => s.subrange(i as int, e as int) + rewrite_from(s, names, e),
        }
    } else {
        seq![s[i as int]] + rewrite_from(s, names, i + 1)
    }
}

#[via_fn]
proof fn rewrite_from_decreases(s: Seq<char>, names: Seq<Seq<char>>, i: nat) {
    lemma_ident_end(s, i + 1);
}

/// `s` with its named placeholders made positional.
pub open spec fn rewrite_named(s: Seq<char>, names: Seq<Seq<char>>) -> Seq<char> {
    rewrite_from(s, names, 0)
}

pub open spec fn views(v: Seq<Vec<char>>) -> Seq<Seq<char>> {
    v.map_values(|x: Vec<char>| x@)
}

fn is_start(c: char) -> (r: bool)
    ensures
        r == is_ident_start(c),
{
    ('A' <= c && c <= 'Z') || ('a' <= c && c <= 'z') || c == '_'
}

fn is_continue(c: char) -> (r: bool)
    ensures
        r == is_ident_char(c),
{
    is_start(c) || ('0' <= c && c <= '9')
}

fn scan_ident(s: &Vec<char>, j: usize) -> (e: usize)
    requires
        j <= s@.len(),
    ensures
        e == ident_end(s@, j as nat),
{
    let mut k: usize = j;
    while k < s.len() && is_continue(s[k])
        invariant
            j <= k <= s@.len(),
            ident_end(s@, k as nat) == ident_end(s@, j as nat),
        decreases s@.len() - k,
    {
        k = k + 1;
    }
    k
}

fn find_name(names: &Vec<Vec<char>>, s: &Vec<char>, from: usize, to: usize) -> (r: Option<usize>)
    requires
        from <= to <= s@.len(),
    ensures
        index_of(views(names@), s@.subrange(from as int, to as int)) == match r {
            Some(p) => Some(p as nat),
            None => None::<nat>,
        },
        r matches Some(p) ==> p < names@.len(),
{
    proof {
        lemma_index_from(views(names@), s@.subrange(from as int, to as int), 0);
    }
    let ghost ns = views(names@);
    let ghost n = s@.subrange(from as int, to as int);
    let mut k: usize = 0;
    while k < names.len()
        invariant
            k <= names@.len(),
            ns == views(names@),
            n == s@.subrange(from as int, to as int),
            from <= to <= s@.len(),
            index_from(ns, n, k as nat) == index_of(ns, n),
        decreases names@.len() - k,
    {
        if range_is(s, from, to, &names[k]) {
            return Some(k);
        }
        k = k + 1;
    }
    None
}

/// `sql` with each `:name` whose name is one of `names` replaced by its
/// 1-based position (`$1`, `$2`, ...); other text is kept verbatim.
pub fn rewrite_placeholders(sql: &Vec<char>, names: &Vec<Vec<char>>) -> (r: Vec<char>)
    ensures
        r@ == rewrite_named(sql@, views(names@)),
{
    let ghost s = sql@;
    let ghost ns = views(names@);
    let mut out: Vec<char> = Vec::new();
    let count = names.len();
    let mut i: usize = 0;
    while i < sql.len()
        invariant
            s == sql@,
            ns == views(names@),
            count == names@.len(),
            i <= s.len(),
            out@ + rewrite_from(s, ns, i as nat) == rewrite_named(s, ns),
        decreases s.len() - i,
    {
        let ghost before = out@;
        if sql[i] == ':' && i + 1 < sql.len() && is_start(sql[i + 1]) {
            assert(placeholder_at(s, i as nat));
            let e = scan_ident(sql, i + 1);
            proof {
                lemma_ident_end(s, (i + 1) as nat);
            }
            match find_name(names, sql, i + 1, e) {
                Some(p) => {
                    out.push('$');
                    push_decimal(&mut out, p + 1);
                    assert(rewrite_from(s, ns, i as nat) == seq!['$'] + decimal((p + 1) as nat) + rewrite_from(s, ns, e as nat));
                    assert(before + rewrite_from(s, ns, i as nat) =~= out@ + rewrite_from(s, ns, e as nat));
                },
                None => {
                    push_range(&mut out, sql, i, e);
                    assert(rewrite_from(s, ns, i as nat) == s.subrange(i as int, e as int) + rewrite_from(s, ns, e as nat));
                    assert(before + rewrite_from(s, ns, i as nat) =~= out@ + rewrite_from(s, ns, e as nat));
                },
            }
            i = e;
        } else {
            out.push(sql[i]);
            assert(before + rewrite_from(s, ns, i as nat) =~= out@ + rewrite_from(s, ns, (i + 1) as nat));
            i = i + 1;
        }
    }
    assert(out@ =~= out@ + rewrite_from(s, ns, i as nat));
    out
}


proof fn lemma_ident_end_shift(pre: Seq<char>, t: Seq<char>, j: nat)
    ensures
        ident_end(pre + t, pre.len() + j) == pre.len() + ident_end(t, j),
    decreases t.len() - j,
{
    let s = pre + t;
    if j < t.len() && is_ident_char(t[j as int]) {
        assert(s[(pre.len() + j) as int] == t[j as int]);
        lemma_ident_end_shift(pre, t, j + 1);
    } else if j < t.len() {
        assert(s[(pre.len() + j) as int] == t[j as int]);
    }
}

proof fn lemma_rewrite_shift(pre: Seq<char>, t: Seq<char>, names: Seq<Seq<char>>, j: nat)
    ensures
        rewrite_from(pre + t, names, pre.len() + j) == rewrite_from(t, names, j),
    decreases t.len() - j,
{
    let s = pre + t;
    let i = pre.len() + j;
    if j < t.len() {
        assert(s[i as int] == t[j as int]);
        if j + 1 < t.len() {
            assert(s[i + 1int] == t[j + 1int]);
        }
        assert(placeholder_at(s, i) == placeholder_at(t, j));
        if placeholder_at(t, j) {
            lemma_ident_end_shift(pre, t, j + 1);
            lemma_ident_end(t, j + 1);
            let e = ident_end(t, j + 1);
            assert(s.subrange(i + 1int, (pre.len() + e) as int) =~= t.subrange(j + 1int, e as int));
            assert(s.subrange(i as int, (pre.len() + e) as int) =~= t.subrange(j as int, e as int));
            lemma_rewrite_shift(pre, t, names, e);
        } else {
            lemma_rewrite_shift(pre, t, names, j + 1);
        }
    }
}

proof fn lemma_ident_end_prefix(a: Seq<char>, b: Seq<char>, j: nat)
    requires
        j <= a.len(),
        b.len() == 0 || !is_ident_char(b[0]),
    ensures
        ident_end(a + b, j) == ident_end(a, j),
    decreases a.len() - j,
{
    let s = a + b;
    if j < a.len() {
        assert(s[j as int] == a[j as int]);
        lemma_ident_end_prefix(a, b, j + 1);
    } else if b.len() > 0 {
        assert(s[j as int] == b[0]);
    }
}

proof fn lemma_rewrite_split(a: Seq<char>, b: Seq<char>, names: Seq<Seq<char>>, i: nat)
    requires
        i <= a.len(),
        b.len() == 0 || !is_ident_char(b[0]),
    ensures
        rewrite_from(a + b, names, i) == rewrite_from(a, names, i) + rewrite_named(b, names),
    decreases a.len() - i,
{
    let s = a + b;
    if i == a.len() {
        lemma_rewrite_shift(a, b, names, 0);
        assert(rewrite_from(a, names, i) =~= Seq::empty());
        assert(rewrite_from(a, names, i) + rewrite_named(b, names) =~= rewrite_named(b, names));
    } else {
        assert(s[i as int] == a[i as int]);
        if i + 1 < a.len() {
            assert(s[i + 1int] == a[i + 1int]);
        } else if b.len() > 0 {
            assert(s[i + 1int] == b[0]);
        }
        assert(placeholder_at(s, i) == placeholder_at(a, i));
        if placeholder_at(a, i) {
            lemma_ident_end_prefix(a, b, i + 1);
            lemma_ident_end(a, i + 1);
            let e = ident_end(a, i + 1);
            assert(s.subrange(i + 1int, e as int) =~= a.subrange(i + 1int, e as int));
            assert(s.subrange(i as int, e as int) =~= a.subrange(i as int, e as int));
            lemma_rewrite_split(a, b, names, e);
            let r = rewrite_named(b, names);
            match index_of(names, a.subrange(i + 1int, e as int)) {
                Some(p) => {
                    assert(seq!['$'] + decimal(p + 1) + (rewrite_from(a, names, e) + r) =~= seq!['$'] + decimal(p + 1) + rewrite_from(a, names, e) + r);
                },
                None => {
                    assert(a.subrange(i as int, e as int) + (rewrite_from(a, names, e) + r) =~= a.subrange(i as int, e as int) + rewrite_from(a, names, e) + r);
                },
            }
        } else {
            lemma_rewrite_split(a, b, names, i + 1);
            assert(seq![a[i as int]] + (rewrite_from(a, names, i + 1) + rewrite_named(b, names)) =~= seq![a[i as int]] + rewrite_from(a, names, i + 1) + rewrite_named(b, names));
        }
    }
}

/// Whether `n` is an identifier: a letter or underscore, then letters,
/// digits and underscores.
pub open spec fn is_ident(n: Seq<char>) -> bool {
    n.len() > 0 && is_ident_start(n[0]) && forall|k: int| 0 <= k < n.len() ==> is_ident_char(#[trigger] n[k])
}

/// Whether `t` cannot continue an identifier written before it.
pub open spec fn ends_ident(t: Seq<char>) -> bool {
    t.len() == 0 || !is_ident_char(t[0])
}

/// Rewriting works piece by piece: text that does not start inside an
/// identifier is rewritten the same on its own as after other text.
pub proof fn rewrite_concat(a: Seq<char>, b: Seq<char>, names: Seq<Seq<char>>)
    requires
        ends_ident(b),
    ensures
        rewrite_named(a + b, names) == rewrite_named(a, names) + rewrite_named(b, names),
{
    lemma_rewrite_split(a, b, names, 0);
}

proof fn lemma_placeholder_text(n: Seq<char>, names: Seq<Seq<char>>)
    requires
        is_ident(n),
    ensures
        ident_end(seq![':'] + n, 1) == n.len() + 1,
        placeholder_at(seq![':'] + n, 0),
        (seq![':'] + n).subrange(1, n.len() + 1int) == n,
{
    let s = seq![':'] + n;
    assert(s[1] == n[0]);
    assert forall|k: int| 1 <= k < s.len() implies is_ident_char(#[trigger] s[k]) by {
        assert(s[k] == n[k - 1]);
    }
    lemma_ident_end_all(s, 1);
    assert(s.subrange(1, n.len() + 1int) =~= n);
}

proof fn lemma_ident_end_all(s: Seq<char>, j: nat)
    requires
        j <= s.len(),
        forall|k: int| j <= k < s.len() ==> is_ident_char(#[trigger] s[k]),
    ensures
        ident_end(s, j) == s.len(),
    decreases s.len() - j,
{
    if j < s.len() {
        lemma_ident_end_all(s, j + 1);
    }
}

/// A placeholder whose name is declared becomes `$` and the name's 1-based
/// position, whatever text comes before or after it: each occurrence of a
/// name gets the same position.
pub proof fn rewrite_declared(n: Seq<char>, rest: Seq<char>, names: Seq<Seq<char>>)
    requires
        is_ident(n),
        ends_ident(rest),
        index_of(names, n) is Some,
    ensures
        rewrite_named(seq![':'] + n + rest, names) == seq!['$'] + decimal((index_of(names, n)->0 + 1) as nat)
            + rewrite_named(rest, names),
{
    let s = seq![':'] + n;
    rewrite_concat(s, rest, names);
    lemma_placeholder_text(n, names);
    let e = n.len() + 1;
    assert(rewrite_from(s, names, e) =~= Seq::empty());
    let p = index_of(names, n)->0;
    assert(rewrite_named(s, names) =~= seq!['$'] + decimal(p + 1));
}

/// A placeholder whose name is not declared is kept as it is, also when a
/// non-identifier character such as a second colon follows it.
pub proof fn rewrite_undeclared(n: Seq<char>, rest: Seq<char>, names: Seq<Seq<char>>)
    requires
        is_ident(n),
        ends_ident(rest),
        index_of(names, n) is None,
    ensures
        rewrite_named(seq![':'] + n + rest, names) == seq![':'] + n + rewrite_named(rest, names),
{
    let s = seq![':'] + n;
    rewrite_concat(s, rest, names);
    lemma_placeholder_text(n, names);
    let e = n.len() + 1;
    assert(rewrite_from(s, names, e) =~= Seq::empty());
    assert(s.subrange(0, e as int) =~= s);
    assert(rewrite_named(s, names) =~= s);
}

} // verus!
